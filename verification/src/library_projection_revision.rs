//! Revision vector of the desktop library projections.
//!
//! A writer advances the families that its transaction changed; a reader uses
//! the position to reject stale or regressing results.

use vstd::prelude::*;

use crate::text::{same_text, texts};

verus! {

#[derive(Debug, Clone, Copy, PartialEq, Eq, Hash, Structural)]
pub enum ProjectionFamily {
    Article,
    Resource,
    Excerpt,
}

/// The families whose observable material one transaction changed.
#[derive(Debug, Clone, Copy, PartialEq, Eq, Structural)]
pub struct ProjectionImpact {
    pub article: bool,
    pub resource: bool,
    pub excerpt: bool,
}

impl ProjectionImpact {
    pub open spec fn touches(self, family: ProjectionFamily) -> bool {
        match family {
            ProjectionFamily::Article => self.article,
            ProjectionFamily::Resource => self.resource,
            ProjectionFamily::Excerpt => self.excerpt,
        }
    }

    pub fn none() -> (r: ProjectionImpact)
        ensures
            forall|f: ProjectionFamily| !r.touches(f),
            !r.article && !r.resource && !r.excerpt,
    {
        ProjectionImpact { article: false, resource: false, excerpt: false }
    }

    pub fn article() -> (r: ProjectionImpact)
        ensures
            r == (ProjectionImpact { article: true, resource: false, excerpt: false }),
    {
        ProjectionImpact { article: true, resource: false, excerpt: false }
    }

    pub fn resource() -> (r: ProjectionImpact)
        ensures
            r == (ProjectionImpact { article: false, resource: true, excerpt: false }),
    {
        ProjectionImpact { article: false, resource: true, excerpt: false }
    }

    pub fn excerpt() -> (r: ProjectionImpact)
        ensures
            r == (ProjectionImpact { article: false, resource: false, excerpt: true }),
    {
        ProjectionImpact { article: false, resource: false, excerpt: true }
    }

    /// The same impact and `family`.
    pub fn with(self, family: ProjectionFamily) -> (r: ProjectionImpact)
        ensures
            forall|f: ProjectionFamily| #[trigger]
                r.touches(f) == (self.touches(f) || f == family),
    {
        let mut impact = self;
        match family {
            ProjectionFamily::Article => impact.article = true,
            ProjectionFamily::Resource => impact.resource = true,
            ProjectionFamily::Excerpt => impact.excerpt = true,
        }
        impact
    }

    pub fn is_empty(self) -> (r: bool)
        ensures
            r == (!self.article && !self.resource && !self.excerpt),
            r == (forall|f: ProjectionFamily| !self.touches(f)),
    {
        proof {
            assert(self.article == self.touches(ProjectionFamily::Article));
            assert(self.resource == self.touches(ProjectionFamily::Resource));
            assert(self.excerpt == self.touches(ProjectionFamily::Excerpt));
        }
        !self.article && !self.resource && !self.excerpt
    }
}

#[derive(Debug, Clone, Copy, PartialEq, Eq, Structural)]
pub struct LibraryProjectionRevision {
    pub article: i64,
    pub resource: i64,
    pub excerpt: i64,
}

impl Default for LibraryProjectionRevision {
    fn default() -> (r: LibraryProjectionRevision)
        ensures
            r == (LibraryProjectionRevision { article: 0, resource: 0, excerpt: 0 }),
    {
        LibraryProjectionRevision { article: 0, resource: 0, excerpt: 0 }
    }
}

impl LibraryProjectionRevision {
    pub open spec fn at(self, family: ProjectionFamily) -> i64 {
        match family {
            ProjectionFamily::Article => self.article,
            ProjectionFamily::Resource => self.resource,
            ProjectionFamily::Excerpt => self.excerpt,
        }
    }

    pub fn family(self, family: ProjectionFamily) -> (r: i64)
        ensures
            r == self.at(family),
    {
        match family {
            ProjectionFamily::Article => self.article,
            ProjectionFamily::Resource => self.resource,
            ProjectionFamily::Excerpt => self.excerpt,
        }
    }

    /// Every counter can still advance.
    pub open spec fn has_room(self) -> bool {
        self.article < i64::MAX && self.resource < i64::MAX && self.excerpt < i64::MAX
    }

    /// One more at each family that `impact` touches, the same elsewhere.
    pub open spec fn advanced(self, impact: ProjectionImpact) -> LibraryProjectionRevision {
        LibraryProjectionRevision {
            article: (self.article + if impact.article { 1int } else { 0 }) as i64,
            resource: (self.resource + if impact.resource { 1int } else { 0 }) as i64,
            excerpt: (self.excerpt + if impact.excerpt { 1int } else { 0 }) as i64,
        }
    }

    pub fn advance(&mut self, impact: ProjectionImpact)
        requires
            old(self).has_room(),
        ensures
            *final(self) == old(self).advanced(impact),
    {
        if impact.article {
            self.article = self.article + 1;
        }
        if impact.resource {
            self.resource = self.resource + 1;
        }
        if impact.excerpt {
            self.excerpt = self.excerpt + 1;
        }
    }
}

/// The identity of the library that a projection was read from.
#[derive(Debug, Clone, PartialEq, Eq, Hash)]
pub struct LibraryGeneration(String);

impl View for LibraryGeneration {
    type V = Seq<char>;

    closed spec fn view(&self) -> Seq<char> {
        self.0@
    }
}

impl LibraryGeneration {
    pub fn from_epoch(epoch: &str) -> (r: LibraryGeneration)
        ensures
            r@ == epoch@,
    {
        LibraryGeneration(epoch.to_owned())
    }

    pub fn uncoordinated() -> (r: LibraryGeneration)
        ensures
            r@ == "uncoordinated"@,
    {
        LibraryGeneration("uncoordinated".to_owned())
    }
}

/// A position in the history of one family.
#[derive(Debug, Clone, PartialEq, Eq)]
pub struct ProjectionStamp {
    pub generation: LibraryGeneration,
    pub revision: i64,
}

#[derive(Debug, Clone, Copy, PartialEq, Eq, Structural)]
pub enum RevisionFailure {
    /// "read library projection revision"
    Unreadable,
    /// "PROJECTION_REVISION_SINGLETON_MISSING"
    SingletonMissing,
}

/// The stored vector; `None` where its row is missing.
pub type RevisionRow = Option<LibraryProjectionRevision>;

/// The row of a new library.
pub fn initial_row() -> (r: RevisionRow)
    ensures
        r == Some(LibraryProjectionRevision { article: 0, resource: 0, excerpt: 0 }),
{
    Some(LibraryProjectionRevision::default())
}

pub fn read(row: &RevisionRow) -> (r: Result<LibraryProjectionRevision, RevisionFailure>)
    ensures
        match *row {
            Some(vector) => r == Ok::<LibraryProjectionRevision, RevisionFailure>(vector),
            None => r == Err::<LibraryProjectionRevision, RevisionFailure>(
                RevisionFailure::Unreadable,
            ),
        },
{
    match row {
        Some(vector) => Ok(*vector),
        None => Err(RevisionFailure::Unreadable),
    }
}

pub fn read_family(row: &RevisionRow, family: ProjectionFamily) -> (r: Result<i64, RevisionFailure>)
    ensures
        match *row {
            Some(vector) => r == Ok::<i64, RevisionFailure>(vector.at(family)),
            None => r == Err::<i64, RevisionFailure>(RevisionFailure::Unreadable),
        },
{
    match read(row) {
        Ok(vector) => Ok(vector.family(family)),
        Err(failure) => Err(failure),
    }
}

/// Records the whole impact of one transaction in a single update. An empty
/// impact observes the current vector.
pub fn record(row: &mut RevisionRow, impact: ProjectionImpact) -> (r: Result<
    LibraryProjectionRevision,
    RevisionFailure,
>)
    requires
        *old(row) is Some ==> (*old(row))->0.has_room(),
    ensures
        match *old(row) {
            Some(vector) => *final(row) == Some(vector.advanced(impact)) && r == Ok::<
                LibraryProjectionRevision,
                RevisionFailure,
            >(vector.advanced(impact)),
            None => *final(row) is None && r == Err::<LibraryProjectionRevision, RevisionFailure>(
                if impact.article || impact.resource || impact.excerpt {
                    RevisionFailure::SingletonMissing
                } else {
                    RevisionFailure::Unreadable
                },
            ),
        },
{
    if impact.is_empty() {
        return read(row);
    }
    match row {
        None => Err(RevisionFailure::SingletonMissing),
        Some(vector) => {
            vector.advance(impact);
            Ok(*vector)
        },
    }
}

/// Advances one family and returns its new position.
pub fn bump(row: &mut RevisionRow, family: ProjectionFamily) -> (r: Result<i64, RevisionFailure>)
    requires
        *old(row) is Some ==> (*old(row))->0.has_room(),
    ensures
        match *old(row) {
            Some(vector) => {
                &&& r == Ok::<i64, RevisionFailure>((vector.at(family) + 1) as i64)
                &&& *final(row) is Some
                &&& forall|f: ProjectionFamily| #[trigger]
                    (*final(row))->0.at(f) == vector.at(f) + (if f == family {
                        1int
                    } else {
                        0
                    })
            },
            None => *final(row) is None && r == Err::<i64, RevisionFailure>(
                RevisionFailure::SingletonMissing,
            ),
        },
{
    let impact = ProjectionImpact::none().with(family);
    proof {
        assert(impact.touches(family));
        assert(impact.article == impact.touches(ProjectionFamily::Article));
        assert(impact.resource == impact.touches(ProjectionFamily::Resource));
        assert(impact.excerpt == impact.touches(ProjectionFamily::Excerpt));
    }
    match record(row, impact) {
        Ok(vector) => Ok(vector.family(family)),
        Err(failure) => Err(failure),
    }
}

/// The columns that the table must have, in the order in which they are asked for.
pub open spec fn required_columns() -> Seq<Seq<char>> {
    seq!["singleton_id"@, "article_revision"@, "resource_revision"@, "excerpt_revision"@]
}

pub open spec fn missing_column(name: Seq<char>) -> Seq<char> {
    "SCHEMA_MISSING_COLUMN: library_projection_revisions."@ + name
}

fn has_column(columns: &[String], name: &str) -> (r: bool)
    ensures
        r == texts(columns@).contains(name@),
{
    let mut i: usize = 0;
    while i < columns.len()
        invariant
            i <= columns.len(),
            forall|k: int| 0 <= k < i ==> texts(columns@)[k] != name@,
        decreases columns.len() - i,
    {
        if same_text(&columns[i], name) {
            proof {
                assert(texts(columns@)[i as int] == name@);
            }
            return true;
        }
        i += 1;
    }
    false
}

/// Checks the stored shape: every required column and exactly one row.
pub fn verify_schema_v8(columns: &[String], singleton_count: i64) -> (r: Result<(), String>)
    ensures
        ({
            let need = required_columns();
            let have = texts(columns@);
            match r {
                Ok(_) => (forall|k: int| 0 <= k < need.len() ==> have.contains(#[trigger] need[k]))
                    && singleton_count == 1,
                Err(message) => {
                    ||| exists|k: int|
                        0 <= k < need.len() && !have.contains(#[trigger] need[k]) && (forall|j: int|
                            0 <= j < k ==> have.contains(#[trigger] need[j])) && message@
                            == missing_column(need[k])
                    ||| (forall|k: int| 0 <= k < need.len() ==> have.contains(#[trigger] need[k]))
                        && singleton_count != 1 && message@
                        == "PROJECTION_REVISION_SINGLETON_MISSING"@
                },
            }
        }),
{
    let names: [&str; 4] = ["singleton_id", "article_revision", "resource_revision", "excerpt_revision"];
    let mut i: usize = 0;
    let ghost need = required_columns();
    let ghost have = texts(columns@);
    proof {
        assert(names@[0]@ == need[0] && names@[1]@ == need[1] && names@[2]@ == need[2] && names@[3]@
            == need[3]);
    }
    while i < 4
        invariant
            i <= 4,
            names@.len() == 4,
            need == required_columns(),
            have == texts(columns@),
            forall|k: int| 0 <= k < 4 ==> (#[trigger] names@[k])@ == need[k],
            forall|k: int| 0 <= k < i ==> have.contains(#[trigger] need[k]),
        decreases 4 - i,
    {
        if !has_column(columns, names[i]) {
            let mut message = "SCHEMA_MISSING_COLUMN: library_projection_revisions.".to_owned();
            message.append(names[i]);
            proof {
                assert(!have.contains(need[i as int]));
                assert(message@ == missing_column(need[i as int]));
            }
            return Err(message);
        }
        i += 1;
    }
    if singleton_count == 1 {
        Ok(())
    } else {
        Err("PROJECTION_REVISION_SINGLETON_MISSING".to_owned())
    }
}

/// A recorded impact advances exactly the families it touches, by one, and
/// no counter ever goes back.
pub proof fn recorded_impact_is_monotone_and_independent(
    vector: LibraryProjectionRevision,
    impact: ProjectionImpact,
    family: ProjectionFamily,
)
    requires
        vector.has_room(),
    ensures
        vector.advanced(impact).at(family) >= vector.at(family),
        vector.advanced(impact).at(family) == vector.at(family) + (if impact.touches(family) {
            1int
        } else {
            0
        }),
{
}

/// The revision of the library needs its four columns, and one row.
pub proof fn the_revision_table_has_four_columns(name: Seq<char>)
    ensures
        required_columns().contains(name) <==> name == "singleton_id"@ || name
            == "article_revision"@ || name == "resource_revision"@ || name == "excerpt_revision"@,
        missing_column(name) == "SCHEMA_MISSING_COLUMN: library_projection_revisions."@ + name,
{
    let all = required_columns();
    assert(all[0] == "singleton_id"@ && all[1] == "article_revision"@ && all[2]
        == "resource_revision"@ && all[3] == "excerpt_revision"@);
}

/// Each family has a revision of its own, and an impact tells of each family
/// whether it changed.
pub proof fn families_have_their_own_revision(
    vector: LibraryProjectionRevision,
    impact: ProjectionImpact,
)
    requires
        vector.has_room(),
    ensures
        vector.at(ProjectionFamily::Article) == vector.article,
        vector.at(ProjectionFamily::Resource) == vector.resource,
        vector.at(ProjectionFamily::Excerpt) == vector.excerpt,
        impact.touches(ProjectionFamily::Article) == impact.article,
        impact.touches(ProjectionFamily::Resource) == impact.resource,
        impact.touches(ProjectionFamily::Excerpt) == impact.excerpt,
        impact.article <==> vector.advanced(impact).article > vector.article,
        impact.resource <==> vector.advanced(impact).resource > vector.resource,
        impact.excerpt <==> vector.advanced(impact).excerpt > vector.excerpt,
{
}

} // verus!
