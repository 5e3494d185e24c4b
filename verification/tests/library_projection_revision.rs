use shiyue::library_projection_revision::{
    bump, initial_row, read, read_family, record, verify_schema_v8, LibraryGeneration,
    LibraryProjectionRevision, ProjectionFamily, ProjectionImpact,
};

#[test]
fn family_revisions_advance_independently_and_monotonically() {
    let mut row = initial_row();
    assert_eq!(read(&row).unwrap(), LibraryProjectionRevision::default());
    assert_eq!(bump(&mut row, ProjectionFamily::Resource).unwrap(), 1);
    assert_eq!(bump(&mut row, ProjectionFamily::Resource).unwrap(), 2);
    assert_eq!(bump(&mut row, ProjectionFamily::Article).unwrap(), 1);
    assert_eq!(
        read(&row).unwrap(),
        LibraryProjectionRevision {
            article: 1,
            resource: 2,
            excerpt: 0,
        }
    );
}

#[test]
fn impact_is_closed_deduplicated_and_recorded_atomically() {
    let mut row = initial_row();
    let impact = ProjectionImpact::article()
        .with(ProjectionFamily::Excerpt)
        .with(ProjectionFamily::Article);
    assert_eq!(
        record(&mut row, impact).unwrap(),
        LibraryProjectionRevision {
            article: 1,
            resource: 0,
            excerpt: 1,
        }
    );
    assert_eq!(
        record(&mut row, ProjectionImpact::none()).unwrap().article,
        1
    );
}

#[test]
fn a_missing_row_is_an_error() {
    let mut row = None;
    assert!(read(&row).is_err());
    assert!(read_family(&row, ProjectionFamily::Article).is_err());
    assert!(record(&mut row, ProjectionImpact::article()).is_err());
    assert!(bump(&mut row, ProjectionFamily::Article).is_err());
}

#[test]
fn families_are_read_one_by_one() {
    let mut row = initial_row();
    record(&mut row, ProjectionImpact::excerpt()).unwrap();
    assert_eq!(read_family(&row, ProjectionFamily::Excerpt).unwrap(), 1);
    assert_eq!(read_family(&row, ProjectionFamily::Article).unwrap(), 0);
    assert!(ProjectionImpact::none().is_empty());
    assert!(!ProjectionImpact::resource().is_empty());
}

#[test]
fn the_stored_schema_is_checked() {
    let columns: Vec<String> = [
        "singleton_id",
        "article_revision",
        "resource_revision",
        "excerpt_revision",
    ]
    .iter()
    .map(|name| name.to_string())
    .collect();
    assert_eq!(verify_schema_v8(&columns, 1), Ok(()));
    assert!(verify_schema_v8(&columns, 0).is_err());
    assert!(verify_schema_v8(&columns[1..], 1).is_err());
}

#[test]
fn generations_are_told_apart_by_their_epoch() {
    assert_eq!(
        LibraryGeneration::from_epoch("a"),
        LibraryGeneration::from_epoch("a")
    );
    assert_ne!(
        LibraryGeneration::from_epoch("a"),
        LibraryGeneration::from_epoch("b")
    );
    assert_ne!(
        LibraryGeneration::from_epoch("a"),
        LibraryGeneration::uncoordinated()
    );
}
