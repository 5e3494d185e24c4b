//! Content-addressed image cache.
//!
//! Addresses are references only. The bytes of an image are kept once, under
//! their digest, so that equal answers from different addresses share an
//! object.

use vstd::prelude::*;

use crate::digest::{content_digest, digest, hexadecimal, valid};
use crate::directory::{
    distinct_names, find, lemma_filtered_names, lemma_find, lemma_with_entry, lemma_without_entry,
    lookup, with_entry, without_entry,
};
use crate::text::{chars_of, same_text, trim, trimmed};

verus! {

/// The cache is pruned to this size when the desktop starts.
pub const DEFAULT_LIMIT_BYTES: u64 = 1_073_741_824;

/// What the reader may shrink the cache to by hand.
pub const SHRUNK_LIMIT_BYTES: u64 = 536_870_912;

#[derive(Debug, Clone, Copy, PartialEq, Eq, Structural)]
pub struct CacheStats {
    pub objects: usize,
    pub references: usize,
    pub bytes: u64,
}

impl Default for CacheStats {
    fn default() -> (r: CacheStats)
        ensures
            r == (CacheStats { objects: 0, references: 0, bytes: 0 }),
    {
        CacheStats { objects: 0, references: 0, bytes: 0 }
    }
}

/// A file that holds an image, named by its digest.
#[derive(Debug)]
pub struct ObjectFile {
    pub name: String,
    pub bytes: Vec<u8>,
}

/// A file that holds the digest of an image, named by the digest of an
/// address. It is written again whenever the image is used.
#[derive(Debug)]
pub struct ReferenceFile {
    pub name: String,
    pub text: String,
    pub modified: u64,
}

/// What a reference file holds: its text and when it was written.
pub ghost struct ReferenceValue {
    pub text: Seq<char>,
    pub modified: u64,
}

pub open spec fn object_entries(s: Seq<ObjectFile>) -> Seq<(Seq<char>, Seq<u8>)> {
    s.map_values(|f: ObjectFile| (f.name@, f.bytes@))
}

pub open spec fn reference_entries(s: Seq<ReferenceFile>) -> Seq<(Seq<char>, ReferenceValue)> {
    s.map_values(
        |f: ReferenceFile| (f.name@, ReferenceValue { text: f.text@, modified: f.modified }),
    )
}

pub ghost struct CacheView {
    pub objects: Seq<(Seq<char>, Seq<u8>)>,
    pub references: Seq<(Seq<char>, ReferenceValue)>,
}

/// The two directories of the cache.
#[derive(Debug)]
pub struct ImageStore {
    objects: Vec<ObjectFile>,
    references: Vec<ReferenceFile>,
}

impl View for ImageStore {
    type V = CacheView;

    closed spec fn view(&self) -> CacheView {
        CacheView {
            objects: object_entries(self.objects@),
            references: reference_entries(self.references@),
        }
    }
}

impl CacheView {
    /// No name stands twice in a directory.
    pub open spec fn wf(self) -> bool {
        distinct_names(self.objects) && distinct_names(self.references)
    }
}

/// The name of the reference file of an address.
pub open spec fn address_digest(url: Seq<char>) -> Seq<char> {
    content_digest(vstd::utf8::encode_utf8(url))
}

/// The digest that a reference's text names, where it names one.
pub open spec fn referenced(text: Seq<char>) -> Option<Seq<char>> {
    if valid(trim(text)) {
        Some(trim(text))
    } else {
        None
    }
}

/// The bytes that an address leads to: its reference names an object that is
/// there and has the digest it is named by.
pub open spec fn resolved(s: CacheView, url: Seq<char>) -> Option<Seq<u8>> {
    match lookup(s.references, address_digest(url)) {
        None => None,
        Some(value) => match referenced(value.text) {
            None => None,
            Some(hash) => match lookup(s.objects, hash) {
                None => None,
                Some(bytes) => if content_digest(bytes) == hash {
                    Some(bytes)
                } else {
                    None
                },
            },
        },
    }
}

/// The cache after an address was looked up: a reference that leads nowhere is
/// dropped, with the object if that is damaged, and one that leads to an image
/// is written again.
pub open spec fn looked_up(s: CacheView, url: Seq<char>, now: u64) -> CacheView {
    let name = address_digest(url);
    match lookup(s.references, name) {
        None => s,
        Some(value) => match referenced(value.text) {
            None => CacheView { references: without_entry(s.references, name), ..s },
            Some(hash) => match lookup(s.objects, hash) {
                None => CacheView { references: without_entry(s.references, name), ..s },
                Some(bytes) => if content_digest(bytes) == hash {
                    CacheView {
                        references: with_entry(
                            s.references,
                            name,
                            ReferenceValue { text: hash, modified: now },
                        ),
                        ..s
                    }
                } else {
                    CacheView {
                        objects: without_entry(s.objects, hash),
                        references: without_entry(s.references, name),
                    }
                },
            },
        },
    }
}

/// The cache after an image was kept: its object is written unless it is there
/// already, and the address refers to it.
pub open spec fn kept(s: CacheView, url: Seq<char>, bytes: Seq<u8>, now: u64) -> CacheView {
    let hash = content_digest(bytes);
    CacheView {
        objects: if find(s.objects, hash) is Some {
            s.objects
        } else {
            s.objects.push((hash, bytes))
        },
        references: with_entry(
            s.references,
            address_digest(url),
            ReferenceValue { text: hash, modified: now },
        ),
    }
}

/// The size of all objects.
pub open spec fn total_bytes(objects: Seq<(Seq<char>, Seq<u8>)>) -> nat
    decreases objects.len(),
{
    if objects.len() == 0 {
        0
    } else {
        total_bytes(objects.drop_last()) + objects.last().1.len()
    }
}

pub fn valid_digest(value: &str) -> (r: bool)
    ensures
        r == valid(value@),
{
    let chars = chars_of(value);
    if chars.len() != 64 {
        return false;
    }
    let mut i: usize = 0;
    while i < chars.len()
        invariant
            i <= chars.len(),
            chars@ == value@,
            forall|k: int| 0 <= k < i ==> hexadecimal(#[trigger] chars@[k]),
        decreases chars.len() - i,
    {
        let c = chars[i];
        if !(('0' <= c && c <= '9') || ('a' <= c && c <= 'f') || ('A' <= c && c <= 'F')) {
            proof {
                assert(!hexadecimal(value@[i as int]));
            }
            return false;
        }
        i += 1;
    }
    true
}

/// The digest that a reference's text names.
pub fn referenced_object(text: &str) -> (r: Option<String>)
    ensures
        match r {
            Some(hash) => referenced(text@) == Some(hash@),
            None => referenced(text@) is None,
        },
{
    let inner = trimmed(text);
    if valid_digest(&inner) {
        Some(inner)
    } else {
        None
    }
}

pub fn reference_name(url: &str) -> (r: String)
    ensures
        r@ == address_digest(url@),
{
    digest(url.as_bytes())
}

fn find_object(objects: &[ObjectFile], name: &str) -> (r: Option<usize>)
    ensures
        match r {
            Some(i) => i < objects.len() && find(object_entries(objects@), name@) == Some(i as int),
            None => find(object_entries(objects@), name@) is None,
        },
{
    let ghost all = object_entries(objects@);
    let mut found: Option<usize> = None;
    let mut i: usize = 0;
    while i < objects.len()
        invariant
            i <= objects.len(),
            all == object_entries(objects@),
            match found {
                Some(k) => k < i && find(all.take(i as int), name@) == Some(k as int),
                None => find(all.take(i as int), name@) is None,
            },
        decreases objects.len() - i,
    {
        proof {
            assert(all.take(i + 1).drop_last() =~= all.take(i as int));
            assert(all.take(i + 1).last() == all[i as int]);
        }
        if found.is_none() && same_text(&objects[i].name, name) {
            found = Some(i);
        }
        i += 1;
    }
    proof {
        assert(all.take(all.len() as int) =~= all);
    }
    found
}

fn find_reference(references: &[ReferenceFile], name: &str) -> (r: Option<usize>)
    ensures
        match r {
            Some(i) => i < references.len() && find(reference_entries(references@), name@) == Some(
                i as int,
            ),
            None => find(reference_entries(references@), name@) is None,
        },
{
    let ghost all = reference_entries(references@);
    let mut found: Option<usize> = None;
    let mut i: usize = 0;
    while i < references.len()
        invariant
            i <= references.len(),
            all == reference_entries(references@),
            match found {
                Some(k) => k < i && find(all.take(i as int), name@) == Some(k as int),
                None => find(all.take(i as int), name@) is None,
            },
        decreases references.len() - i,
    {
        proof {
            assert(all.take(i + 1).drop_last() =~= all.take(i as int));
            assert(all.take(i + 1).last() == all[i as int]);
        }
        if found.is_none() && same_text(&references[i].name, name) {
            found = Some(i);
        }
        i += 1;
    }
    proof {
        assert(all.take(all.len() as int) =~= all);
    }
    found
}

fn copy_bytes(bytes: &[u8]) -> (r: Vec<u8>)
    ensures
        r@ == bytes@,
{
    let mut r: Vec<u8> = Vec::new();
    r.extend_from_slice(bytes);
    proof {
        assert(r@ =~= bytes@);
    }
    r
}

impl ImageStore {
    /// A cache over the files of its two directories.
    pub fn open(objects: Vec<ObjectFile>, references: Vec<ReferenceFile>) -> (r: ImageStore)
        requires
            distinct_names(object_entries(objects@)),
            distinct_names(reference_entries(references@)),
        ensures
            r@.objects == object_entries(objects@),
            r@.references == reference_entries(references@),
            r@.wf(),
    {
        ImageStore { objects, references }
    }

    /// The files of the cache, to be written back.
    pub fn into_files(self) -> (r: (Vec<ObjectFile>, Vec<ReferenceFile>))
        ensures
            object_entries(r.0@) == self@.objects,
            reference_entries(r.1@) == self@.references,
    {
        (self.objects, self.references)
    }

    fn drop_reference(&mut self, at: usize, Ghost(name): Ghost<Seq<char>>)
        requires
            at < old(self).references@.len(),
            find(old(self)@.references, name) == Some(at as int),
        ensures
            final(self)@ == (CacheView {
                references: without_entry(old(self)@.references, name),
                ..old(self)@
            }),
    {
        let ghost before = self.references@;
        let removed = self.references.remove(at);
        proof {
            assert(reference_entries(self.references@) =~= reference_entries(before).remove(
                at as int,
            ));
        }
    }

    fn write_reference(&mut self, name: &str, text: &str, now: u64)
        ensures
            final(self)@ == (CacheView {
                references: with_entry(
                    old(self)@.references,
                    name@,
                    ReferenceValue { text: text@, modified: now },
                ),
                ..old(self)@
            }),
    {
        let ghost before = self.references@;
        let file = ReferenceFile { name: name.to_owned(), text: text.to_owned(), modified: now };
        let ghost entry = (file.name@, ReferenceValue { text: text@, modified: now });
        match find_reference(&self.references, name) {
            Some(i) => {
                self.references.set(i, file);
                proof {
                    assert(reference_entries(self.references@) =~= reference_entries(before).update(
                        i as int,
                        entry,
                    ));
                }
            },
            None => {
                self.references.push(file);
                proof {
                    assert(reference_entries(self.references@) =~= reference_entries(before).push(
                        entry,
                    ));
                }
            },
        }
    }

    /// The image that an address leads to. Looking up heals the cache, and
    /// marks the image as used.
    pub fn get(&mut self, url: &str, now: u64) -> (r: Option<Vec<u8>>)
        ensures
            match r {
                Some(bytes) => resolved(old(self)@, url@) == Some(bytes@),
                None => resolved(old(self)@, url@) is None,
            },
            final(self)@ == looked_up(old(self)@, url@, now),
    {
        let name = reference_name(url);
        let at: usize = match find_reference(&self.references, &name) {
            None => {
                return None;
            },
            Some(i) => i,
        };
        let hash = match referenced_object(&self.references[at].text) {
            None => {
                self.drop_reference(at, Ghost(name@));
                return None;
            },
            Some(hash) => hash,
        };
        let object: usize = match find_object(&self.objects, &hash) {
            None => {
                self.drop_reference(at, Ghost(name@));
                return None;
            },
            Some(i) => i,
        };
        let bytes = copy_bytes(&self.objects[object].bytes);
        if !same_text(&digest(&bytes), &hash) {
            let ghost before = self.objects@;
            let removed = self.objects.remove(object);
            proof {
                assert(object_entries(self.objects@) =~= object_entries(before).remove(
                    object as int,
                ));
            }
            self.drop_reference(at, Ghost(name@));
            return None;
        }
        self.write_reference(&name, &hash, now);
        Some(bytes)
    }

    /// Keeps an image for an address and gives its digest. An empty image is
    /// refused.
    pub fn put(&mut self, url: &str, bytes: &[u8], now: u64) -> (r: Result<String, String>)
        ensures
            match r {
                Ok(hash) => bytes@.len() > 0 && hash@ == content_digest(bytes@) && valid(hash@)
                    && final(self)@ == kept(old(self)@, url@, bytes@, now),
                Err(message) => bytes@.len() == 0 && message@ == "不能缓存空图片"@
                    && final(self)@ == old(self)@,
            },
            bytes@.len() > 0 && old(self)@.wf() && (lookup(
                old(self)@.objects,
                content_digest(bytes@),
            ) matches Some(stood) ==> stood == bytes@) ==> final(self)@.wf() && resolved(
                final(self)@,
                url@,
            ) == Some(bytes@),
    {
        if bytes.len() == 0 {
            return Err("不能缓存空图片".to_owned());
        }
        let hash = digest(bytes);
        if find_object(&self.objects, &hash).is_none() {
            let ghost before = self.objects@;
            let file = ObjectFile { name: hash.clone(), bytes: copy_bytes(bytes) };
            self.objects.push(file);
            proof {
                assert(object_entries(self.objects@) =~= object_entries(before).push(
                    (hash@, bytes@),
                ));
            }
        }
        self.write_reference(&reference_name(url), &hash, now);
        proof {
            let cache = old(self)@;
            if cache.wf() && (lookup(cache.objects, hash@) matches Some(stood) ==> stood
                == bytes@) {
                kept_images_are_found_again(cache, url@, bytes@, now);
            }
        }
        Ok(hash)
    }

    pub fn stats(&self) -> (r: CacheStats)
        requires
            total_bytes(self@.objects) <= u64::MAX,
        ensures
            r.objects == self@.objects.len(),
            r.references == self@.references.len(),
            r.bytes == total_bytes(self@.objects),
    {
        let ghost all = self@.objects;
        let mut bytes: u64 = 0;
        let mut i: usize = 0;
        while i < self.objects.len()
            invariant
                i <= self.objects.len(),
                all == self@.objects,
                total_bytes(all) <= u64::MAX,
                bytes == total_bytes(all.take(i as int)),
            decreases self.objects.len() - i,
        {
            proof {
                assert(all.take(i + 1).drop_last() =~= all.take(i as int));
                assert(all.take(i + 1).last() == all[i as int]);
                lemma_total_monotone(all, i + 1);
            }
            bytes = bytes + self.objects[i].bytes.len() as u64;
            i += 1;
        }
        proof {
            assert(all.take(all.len() as int) =~= all);
        }
        CacheStats { objects: self.objects.len(), references: self.references.len(), bytes }
    }

    /// Empties the cache and tells how many bytes it held.
    pub fn clear(&mut self) -> (r: u64)
        requires
            total_bytes(old(self)@.objects) <= u64::MAX,
        ensures
            r == total_bytes(old(self)@.objects),
            final(self)@.objects.len() == 0,
            final(self)@.references.len() == 0,
            final(self)@.wf(),
    {
        let before: u64 = self.stats().bytes;
        self.references.clear();
        self.objects.clear();
        before
    }
}

proof fn lemma_total_monotone(objects: Seq<(Seq<char>, Seq<u8>)>, n: int)
    requires
        0 <= n <= objects.len(),
    ensures
        total_bytes(objects.take(n)) <= total_bytes(objects),
    decreases objects.len() - n,
{
    if n < objects.len() {
        lemma_total_monotone(objects, n + 1);
        assert(objects.take(n + 1).drop_last() =~= objects.take(n));
    } else {
        assert(objects.take(n) =~= objects);
    }
}

// ---- pruning ----------------------------------------------------------------

/// A reference that names a digest.
#[derive(Debug)]
pub struct ReferenceItem {
    pub name: String,
    pub hash: String,
    pub modified: u64,
}

pub ghost struct ItemView {
    pub name: Seq<char>,
    pub hash: Seq<char>,
    pub modified: u64,
}

pub open spec fn item_views(s: Seq<ReferenceItem>) -> Seq<ItemView> {
    s.map_values(
        |f: ReferenceItem| ItemView { name: f.name@, hash: f.hash@, modified: f.modified },
    )
}

/// The references that name a digest, in listing order.
pub open spec fn items(references: Seq<(Seq<char>, ReferenceValue)>) -> Seq<ItemView>
    decreases references.len(),
{
    if references.len() == 0 {
        Seq::empty()
    } else {
        let front = items(references.drop_last());
        match referenced(references.last().1.text) {
            Some(hash) => front.push(
                ItemView {
                    name: references.last().0,
                    hash,
                    modified: references.last().1.modified,
                },
            ),
            None => front,
        }
    }
}

/// The item behind every one that is not newer.
pub open spec fn placed(sorted: Seq<ItemView>, item: ItemView) -> Seq<ItemView>
    decreases sorted.len(),
{
    if sorted.len() == 0 || sorted.last().modified <= item.modified {
        sorted.push(item)
    } else {
        placed(sorted.drop_last(), item).push(sorted.last())
    }
}

/// The items, the least recently used first.
pub open spec fn by_age(s: Seq<ItemView>) -> Seq<ItemView>
    decreases s.len(),
{
    if s.len() == 0 {
        Seq::empty()
    } else {
        placed(by_age(s.drop_last()), s.last())
    }
}

pub open spec fn refers_to(s: Seq<ItemView>, hash: Seq<char>) -> bool {
    exists|i: int| 0 <= i < s.len() && (#[trigger] s[i]).hash == hash
}

pub open spec fn has_item(s: Seq<ItemView>, name: Seq<char>) -> bool {
    exists|i: int| 0 <= i < s.len() && (#[trigger] s[i]).name == name
}

pub open spec fn object_size(objects: Seq<(Seq<char>, Seq<u8>)>, hash: Seq<char>) -> nat {
    match lookup(objects, hash) {
        Some(bytes) => bytes.len(),
        None => 0,
    }
}

/// The size of the objects that the items refer to, each counted once.
pub open spec fn referenced_bytes(objects: Seq<(Seq<char>, Seq<u8>)>, s: Seq<ItemView>) -> nat
    decreases s.len(),
{
    if s.len() == 0 {
        0
    } else {
        let front = s.drop_last();
        referenced_bytes(objects, front) + if refers_to(front, s.last().hash) {
            0nat
        } else {
            object_size(objects, s.last().hash)
        }
    }
}

/// How many of the oldest items go until the rest is within the limit.
pub open spec fn surplus(objects: Seq<(Seq<char>, Seq<u8>)>, s: Seq<ItemView>, limit: u64) -> nat
    decreases s.len(),
{
    if s.len() == 0 || referenced_bytes(objects, s) <= limit {
        0
    } else {
        1 + surplus(objects, s.skip(1), limit)
    }
}

/// The items that pruning leaves.
pub open spec fn survivors(s: CacheView, limit: u64) -> Seq<ItemView> {
    let sorted = by_age(items(s.references));
    sorted.skip(surplus(s.objects, sorted, limit) as int)
}

/// The cache after pruning: the surviving references and what they refer to.
pub open spec fn pruned(s: CacheView, limit: u64) -> CacheView {
    let rest = survivors(s, limit);
    CacheView {
        objects: s.objects.filter(|o: (Seq<char>, Seq<u8>)| refers_to(rest, o.0)),
        references: s.references.filter(|r: (Seq<char>, ReferenceValue)| has_item(rest, r.0)),
    }
}

proof fn lemma_placed(sorted: Seq<ItemView>, item: ItemView, at: int)
    requires
        0 <= at <= sorted.len(),
        forall|k: int| at <= k < sorted.len() ==> (#[trigger] sorted[k]).modified > item.modified,
        at > 0 ==> sorted[at - 1].modified <= item.modified,
    ensures
        placed(sorted, item) == sorted.insert(at, item),
    decreases sorted.len(),
{
    if at == sorted.len() {
        assert(sorted.insert(at, item) =~= sorted.push(item));
    } else {
        let front = sorted.drop_last();
        assert(sorted[sorted.len() - 1].modified > item.modified);
        lemma_placed(front, item, at);
        assert(sorted.insert(at, item) =~= front.insert(at, item).push(sorted.last()));
    }
}

fn collect_items(references: &[ReferenceFile]) -> (r: Vec<ReferenceItem>)
    ensures
        item_views(r@) == by_age(items(reference_entries(references@))),
{
    let ghost all = reference_entries(references@);
    let mut sorted: Vec<ReferenceItem> = Vec::new();
    let mut i: usize = 0;
    proof {
        assert(item_views(sorted@) =~= Seq::<ItemView>::empty());
    }
    while i < references.len()
        invariant
            i <= references.len(),
            all == reference_entries(references@),
            item_views(sorted@) == by_age(items(all.take(i as int))),
        decreases references.len() - i,
    {
        proof {
            assert(all.take(i + 1).drop_last() =~= all.take(i as int));
            assert(all.take(i + 1).last() == all[i as int]);
        }
        match referenced_object(&references[i].text) {
            None => {},
            Some(hash) => {
                let item = ReferenceItem {
                    name: references[i].name.clone(),
                    hash,
                    modified: references[i].modified,
                };
                let ghost view = ItemView {
                    name: item.name@,
                    hash: item.hash@,
                    modified: item.modified,
                };
                let mut at: usize = sorted.len();
                while at > 0 && sorted[at - 1].modified > item.modified
                    invariant
                        at <= sorted.len(),
                        forall|k: int|
                            at <= k < sorted.len() ==> (#[trigger] sorted@[k]).modified
                                > item.modified,
                    decreases at,
                {
                    at -= 1;
                }
                let ghost before = sorted@;
                proof {
                    let views = item_views(before);
                    assert forall|k: int| at <= k < views.len() implies (
                    #[trigger] views[k]).modified > view.modified by {
                        assert(before[k].modified > item.modified);
                    }
                    lemma_placed(views, view, at as int);
                    let next = items(all.take(i + 1));
                    assert(next.drop_last() =~= items(all.take(i as int)));
                    assert(next.last() == view);
                }
                sorted.insert(at, item);
                proof {
                    assert(item_views(sorted@) =~= item_views(before).insert(at as int, view));
                }
            },
        }
        i += 1;
    }
    proof {
        assert(all.take(all.len() as int) =~= all);
    }
    sorted
}

fn is_referred(s: &[ReferenceItem], from: usize, to: usize, hash: &str) -> (r: bool)
    requires
        from <= to <= s.len(),
    ensures
        r == refers_to(item_views(s@).subrange(from as int, to as int), hash@),
{
    let ghost part = item_views(s@).subrange(from as int, to as int);
    let mut i: usize = from;
    while i < to
        invariant
            from <= i <= to <= s.len(),
            part == item_views(s@).subrange(from as int, to as int),
            forall|k: int| 0 <= k < i - from ==> (#[trigger] part[k]).hash != hash@,
        decreases to - i,
    {
        if same_text(&s[i].hash, hash) {
            proof {
                assert(part[i - from].hash == hash@);
            }
            return true;
        }
        proof {
            assert(part[i - from].hash == s@[i as int].hash@);
        }
        i += 1;
    }
    false
}

fn is_listed(s: &[ReferenceItem], from: usize, name: &str) -> (r: bool)
    requires
        from <= s.len(),
    ensures
        r == has_item(item_views(s@).skip(from as int), name@),
{
    let ghost part = item_views(s@).skip(from as int);
    let mut i: usize = from;
    while i < s.len()
        invariant
            from <= i <= s.len(),
            part == item_views(s@).skip(from as int),
            forall|k: int| 0 <= k < i - from ==> (#[trigger] part[k]).name != name@,
        decreases s.len() - i,
    {
        if same_text(&s[i].name, name) {
            proof {
                assert(part[i - from].name == name@);
            }
            return true;
        }
        proof {
            assert(part[i - from].name == s@[i as int].name@);
        }
        i += 1;
    }
    false
}

/// The size of what the items from `from` on refer to.
fn size_from(objects: &[ObjectFile], s: &[ReferenceItem], from: usize) -> (r: u128)
    requires
        from <= s.len(),
    ensures
        r == referenced_bytes(object_entries(objects@), item_views(s@).skip(from as int)),
{
    let ghost all = item_views(s@).skip(from as int);
    let ghost files = object_entries(objects@);
    let mut sum: u128 = 0;
    let mut i: usize = from;
    while i < s.len()
        invariant
            from <= i <= s.len(),
            all == item_views(s@).skip(from as int),
            files == object_entries(objects@),
            sum == referenced_bytes(files, all.take(i - from)),
            sum <= (i - from) * 0xffff_ffff_ffff_ffff,
        decreases s.len() - i,
    {
        proof {
            assert(all.take(i - from + 1).drop_last() =~= all.take(i - from));
            assert(all.take(i - from + 1).last() == all[i - from]);
            assert(all[i - from].hash == s@[i as int].hash@);
            assert(item_views(s@).subrange(from as int, i as int) =~= all.take(i - from));
            assert((i - from) * 0xffff_ffff_ffff_ffff + 0xffff_ffff_ffff_ffff == (i - from + 1)
                * 0xffff_ffff_ffff_ffff) by (nonlinear_arith);
            assert((i - from + 1) * 0xffff_ffff_ffff_ffff
                <= 0xffff_ffff_ffff_ffff * 0xffff_ffff_ffff_ffff) by (nonlinear_arith)
                requires
                    i - from + 1 <= 0xffff_ffff_ffff_ffff,
            ;
        }
        if !is_referred(s, from, i, &s[i].hash) {
            match find_object(objects, &s[i].hash) {
                Some(k) => {
                    let size: u128 = objects[k].bytes.len() as u128;
                    sum = sum + size;
                },
                None => {},
            }
        }
        i += 1;
    }
    proof {
        assert(all.take(all.len() as int) =~= all);
    }
    sum
}

impl ImageStore {
    fn sweep_objects(&mut self, s: &Vec<ReferenceItem>, from: usize)
        requires
            from <= s@.len(),
        ensures
            final(self)@ == (CacheView {
                objects: old(self)@.objects.filter(
                    |o: (Seq<char>, Seq<u8>)| refers_to(item_views(s@).skip(from as int), o.0),
                ),
                ..old(self)@
            }),
    {
        let ghost rest = item_views(s@).skip(from as int);
        let ghost keep = |o: (Seq<char>, Seq<u8>)| refers_to(rest, o.0);
        let ghost before = self@.objects;
        let ghost mut seen: int = 0;
        let mut i: usize = 0;
        proof {
            reveal(Seq::filter);
            assert(before.take(0).filter(keep) =~= Seq::empty());
        }
        while i < self.objects.len()
            invariant
                i <= self.objects.len(),
                from <= s@.len(),
                rest == item_views(s@).skip(from as int),
                keep == (|o: (Seq<char>, Seq<u8>)| refers_to(rest, o.0)),
                self.references@ == old(self).references@,
                0 <= seen <= before.len(),
                self@.objects.len() - i == before.len() - seen,
                self@.objects.take(i as int) == before.take(seen).filter(keep),
                forall|k: int|
                    0 <= k < before.len() - seen ==> #[trigger] self@.objects[i + k] == before[seen
                        + k],
            decreases self.objects.len() - i,
        {
            proof {
                reveal(Seq::filter);
                assert(before.take(seen + 1).drop_last() =~= before.take(seen));
                assert(self@.objects[i + 0] == before[seen + 0]);
                assert(before.take(seen + 1).last() == before[seen]);
                assert(item_views(s@).subrange(from as int, s@.len() as int) =~= rest);
            }
            let ghost files = self.objects@;
            let ghost listed = self@.objects;
            if is_referred(s, from, s.len(), &self.objects[i].name) {
                proof {
                    assert(listed.take(i + 1) =~= listed.take(i as int).push(listed[i as int]));
                    assert forall|k: int| 0 <= k < before.len() - (seen + 1) implies #[trigger] listed[i
                        + 1 + k] == before[seen + 1 + k] by {
                        assert(listed[i + (k + 1)] == before[seen + (k + 1)]);
                    }
                }
                i += 1;
            } else {
                let removed = self.objects.remove(i);
                proof {
                    assert(self@.objects =~= listed.remove(i as int));
                    assert(self@.objects.take(i as int) =~= listed.take(i as int));
                    assert forall|k: int| 0 <= k < before.len() - (seen + 1) implies #[trigger] self@.objects[i
                        + k] == before[seen + 1 + k] by {
                        assert(self@.objects[i + k] == listed[i + (k + 1)]);
                        assert(listed[i + (k + 1)] == before[seen + (k + 1)]);
                    }
                }
            }
            proof {
                seen = seen + 1;
            }
        }
        proof {
            assert(self@.objects.take(i as int) =~= self@.objects);
            assert(before.take(seen) =~= before);
        }
    }

    fn drop_unlisted(&mut self, s: &Vec<ReferenceItem>, from: usize)
        requires
            from <= s@.len(),
        ensures
            final(self)@ == (CacheView {
                references: old(self)@.references.filter(
                    |r: (Seq<char>, ReferenceValue)|
                        has_item(item_views(s@).skip(from as int), r.0),
                ),
                ..old(self)@
            }),
    {
        let ghost rest = item_views(s@).skip(from as int);
        let ghost keep = |r: (Seq<char>, ReferenceValue)| has_item(rest, r.0);
        let ghost before = self@.references;
        let ghost mut seen: int = 0;
        let mut i: usize = 0;
        proof {
            reveal(Seq::filter);
            assert(before.take(0).filter(keep) =~= Seq::empty());
        }
        while i < self.references.len()
            invariant
                i <= self.references.len(),
                from <= s@.len(),
                rest == item_views(s@).skip(from as int),
                keep == (|r: (Seq<char>, ReferenceValue)| has_item(rest, r.0)),
                self.objects@ == old(self).objects@,
                0 <= seen <= before.len(),
                self@.references.len() - i == before.len() - seen,
                self@.references.take(i as int) == before.take(seen).filter(keep),
                forall|k: int|
                    0 <= k < before.len() - seen ==> #[trigger] self@.references[i + k]
                        == before[seen + k],
            decreases self.references.len() - i,
        {
            proof {
                reveal(Seq::filter);
                assert(before.take(seen + 1).drop_last() =~= before.take(seen));
                assert(self@.references[i + 0] == before[seen + 0]);
                assert(before.take(seen + 1).last() == before[seen]);
            }
            let ghost listed = self@.references;
            if is_listed(s, from, &self.references[i].name) {
                proof {
                    assert(listed.take(i + 1) =~= listed.take(i as int).push(listed[i as int]));
                    assert forall|k: int| 0 <= k < before.len() - (seen + 1) implies #[trigger] listed[i
                        + 1 + k] == before[seen + 1 + k] by {
                        assert(listed[i + (k + 1)] == before[seen + (k + 1)]);
                    }
                }
                i += 1;
            } else {
                let removed = self.references.remove(i);
                proof {
                    assert(self@.references =~= listed.remove(i as int));
                    assert(self@.references.take(i as int) =~= listed.take(i as int));
                    assert forall|k: int| 0 <= k < before.len() - (seen + 1) implies #[trigger] self@.references[i
                        + k] == before[seen + 1 + k] by {
                        assert(self@.references[i + k] == listed[i + (k + 1)]);
                        assert(listed[i + (k + 1)] == before[seen + (k + 1)]);
                    }
                }
            }
            proof {
                seen = seen + 1;
            }
        }
        proof {
            assert(self@.references.take(i as int) =~= self@.references);
            assert(before.take(seen) =~= before);
        }
    }

    /// Drops the least recently used references until what is left refers to
    /// no more than `limit` bytes, and every object that nothing refers to.
    /// Tells how many bytes that freed.
    pub fn prune_to(&mut self, limit: u64) -> (r: u64)
        requires
            total_bytes(old(self)@.objects) <= u64::MAX,
        ensures
            final(self)@ == pruned(old(self)@, limit),
            r == total_bytes(old(self)@.objects) - total_bytes(final(self)@.objects),
    {
        let before: u64 = self.stats().bytes;
        let ghost start = self@;
        let sorted = collect_items(&self.references);
        let ghost views = item_views(sorted@);
        let mut from: usize = 0;
        proof {
            assert(views.skip(0) =~= views);
        }
        while from < sorted.len() && size_from(&self.objects, &sorted, from) > limit as u128
            invariant
                from <= sorted.len(),
                self@ == start,
                views == item_views(sorted@),
                surplus(start.objects, views, limit) == from + surplus(
                    start.objects,
                    views.skip(from as int),
                    limit,
                ),
            decreases sorted.len() - from,
        {
            proof {
                assert(views.skip(from as int).skip(1) =~= views.skip(from + 1));
            }
            from += 1;
        }
        self.drop_unlisted(&sorted, from);
        self.sweep_objects(&sorted, from);
        proof {
            let rest = views.skip(from as int);
            let keep = |o: (Seq<char>, Seq<u8>)| refers_to(rest, o.0);
            lemma_total_filter(start.objects, keep);
            assert(self@.objects == start.objects.filter(keep));
        }
        before - self.stats().bytes
    }
}

proof fn lemma_total_filter(
    objects: Seq<(Seq<char>, Seq<u8>)>,
    keep: spec_fn((Seq<char>, Seq<u8>)) -> bool,
)
    ensures
        total_bytes(objects.filter(keep)) <= total_bytes(objects),
    decreases objects.len(),
{
    reveal(Seq::filter);
    if objects.len() > 0 {
        lemma_total_filter(objects.drop_last(), keep);
        if keep(objects.last()) {
            assert(objects.drop_last().filter(keep).push(objects.last()).drop_last()
                =~= objects.drop_last().filter(keep));
        }
    }
}

// ---- laws -------------------------------------------------------------------

proof fn lemma_hexadecimal_is_no_space(s: Seq<char>)
    requires
        valid(s),
    ensures
        trim(s) == s,
{
    assert(hexadecimal(s[0]));
    assert(hexadecimal(s[s.len() - 1]));
}

/// An image that was kept for an address is what the address leads to, unless
/// a different object stood under the same digest before.
pub proof fn kept_images_are_found_again(s: CacheView, url: Seq<char>, bytes: Seq<u8>, now: u64)
    requires
        s.wf(),
        valid(content_digest(bytes)),
        lookup(s.objects, content_digest(bytes)) is Some ==> lookup(
            s.objects,
            content_digest(bytes),
        ) == Some(bytes),
    ensures
        kept(s, url, bytes, now).wf(),
        resolved(kept(s, url, bytes, now), url) == Some(bytes),
{
    let hash = content_digest(bytes);
    let value = ReferenceValue { text: hash, modified: now };
    lemma_with_entry(s.references, address_digest(url), value, address_digest(url));
    lemma_hexadecimal_is_no_space(hash);
    lemma_find(s.objects, hash);
    if find(s.objects, hash) is None {
        assert(s.objects.push((hash, bytes)) == with_entry(s.objects, hash, bytes));
        lemma_with_entry(s.objects, hash, bytes, hash);
    }
}

/// Keeping an image leaves alone what other addresses lead to.
pub proof fn keeping_leaves_other_addresses_alone(
    s: CacheView,
    url: Seq<char>,
    bytes: Seq<u8>,
    other: Seq<char>,
    now: u64,
)
    requires
        s.wf(),
        address_digest(other) != address_digest(url),
        resolved(s, other) is Some,
    ensures
        resolved(kept(s, url, bytes, now), other) == resolved(s, other),
{
    let hash = content_digest(bytes);
    let value = ReferenceValue { text: hash, modified: now };
    lemma_with_entry(s.references, address_digest(url), value, address_digest(other));
    let named = referenced(lookup(s.references, address_digest(other))->0.text)->0;
    if find(s.objects, hash) is None {
        lemma_find(s.objects, hash);
        lemma_find(s.objects, named);
        assert(s.objects.push((hash, bytes)) == with_entry(s.objects, hash, bytes));
        lemma_with_entry(s.objects, hash, bytes, named);
    }
}

/// Equal images are kept once, however many addresses lead to them.
pub proof fn equal_images_share_an_object(
    s: CacheView,
    url: Seq<char>,
    other: Seq<char>,
    bytes: Seq<u8>,
    first: u64,
    then: u64,
)
    requires
        s.wf(),
    ensures
        kept(kept(s, url, bytes, first), other, bytes, then).objects == kept(
            s,
            url,
            bytes,
            first,
        ).objects,
        kept(s, url, bytes, first).objects.len() <= s.objects.len() + 1,
{
    let hash = content_digest(bytes);
    let n = kept(s, url, bytes, first);
    lemma_find(s.objects, hash);
    lemma_find(n.objects, hash);
    if find(s.objects, hash) is None {
        assert(n.objects[s.objects.len() as int].0 == hash);
    }
}

/// Looking an address up keeps the directories in order, changes nothing that
/// it leads to, and drops a reference that leads nowhere.
pub proof fn looking_up_heals(s: CacheView, url: Seq<char>, now: u64)
    requires
        s.wf(),
    ensures
        looked_up(s, url, now).wf(),
        resolved(looked_up(s, url, now), url) == resolved(s, url),
        resolved(s, url) is None ==> lookup(
            looked_up(s, url, now).references,
            address_digest(url),
        ) is None,
{
    let name = address_digest(url);
    lemma_without_entry(s.references, name, name);
    match lookup(s.references, name) {
        None => {},
        Some(value) => match referenced(value.text) {
            None => {},
            Some(hash) => {
                lemma_with_entry(
                    s.references,
                    name,
                    ReferenceValue { text: hash, modified: now },
                    name,
                );
                lemma_without_entry(s.objects, hash, hash);
                lemma_hexadecimal_is_no_space(hash);
            },
        },
    }
}

/// Looking an address up leaves alone what other addresses lead to.
pub proof fn looking_up_leaves_other_addresses_alone(
    s: CacheView,
    url: Seq<char>,
    other: Seq<char>,
    now: u64,
)
    requires
        s.wf(),
        address_digest(other) != address_digest(url),
    ensures
        resolved(looked_up(s, url, now), other) == resolved(s, other),
{
    let name = address_digest(url);
    let kept = address_digest(other);
    lemma_without_entry(s.references, name, kept);
    if let Some(value) = lookup(s.references, name) {
        if let Some(hash) = referenced(value.text) {
            let written = ReferenceValue { text: hash, modified: now };
            lemma_with_entry(s.references, name, written, kept);
            if let Some(found) = lookup(s.references, kept) {
                if let Some(object) = referenced(found.text) {
                    lemma_without_entry(s.objects, hash, object);
                }
            }
        }
    }
}

/// The least recently used first.
pub open spec fn in_order(s: Seq<ItemView>) -> bool {
    forall|i: int, j: int|
        0 <= i < j < s.len() ==> (#[trigger] s[i]).modified <= (#[trigger] s[j]).modified
}

proof fn lemma_placed_in_order(sorted: Seq<ItemView>, item: ItemView)
    requires
        in_order(sorted),
    ensures
        in_order(placed(sorted, item)),
        placed(sorted, item).len() == sorted.len() + 1,
    decreases sorted.len(),
{
    if sorted.len() == 0 || sorted.last().modified <= item.modified {
        assert forall|i: int, j: int| 0 <= i < j < sorted.push(item).len() implies (
        #[trigger] sorted.push(item)[i]).modified <= (
        #[trigger] sorted.push(item)[j]).modified by {
            if j == sorted.len() {
                if i < sorted.len() - 1 {
                    assert(sorted[i].modified <= sorted[sorted.len() - 1].modified);
                }
            }
        }
    } else {
        let front = sorted.drop_last();
        assert(in_order(front)) by {
            assert forall|i: int, j: int| 0 <= i < j < front.len() implies (
            #[trigger] front[i]).modified <= (#[trigger] front[j]).modified by {
                assert(sorted[i].modified <= sorted[j].modified);
            }
        }
        lemma_placed_in_order(front, item);
        let p = placed(front, item);
        assert(p.last().modified <= sorted.last().modified) by {
            lemma_placed_bound(front, item, sorted.last().modified, sorted);
        }
        let n = p.push(sorted.last());
        assert forall|i: int, j: int| 0 <= i < j < n.len() implies (#[trigger] n[i]).modified <= (
        #[trigger] n[j]).modified by {
            if j == p.len() {
                if i < p.len() - 1 {
                    assert(p[i].modified <= p[p.len() - 1].modified);
                }
            } else {
                assert(p[i].modified <= p[j].modified);
            }
        }
    }
}

proof fn lemma_placed_bound(
    front: Seq<ItemView>,
    item: ItemView,
    bound: u64,
    sorted: Seq<ItemView>,
)
    requires
        in_order(sorted),
        sorted.len() > 0,
        front == sorted.drop_last(),
        item.modified <= bound,
        sorted.last().modified == bound,
    ensures
        placed(front, item).last().modified <= bound,
{
    if front.len() == 0 || front.last().modified <= item.modified {
    } else {
        assert(sorted[front.len() - 1].modified <= sorted[sorted.len() - 1].modified);
    }
}

proof fn lemma_by_age_in_order(s: Seq<ItemView>)
    ensures
        in_order(by_age(s)),
    decreases s.len(),
{
    if s.len() > 0 {
        lemma_by_age_in_order(s.drop_last());
        lemma_placed_in_order(by_age(s.drop_last()), s.last());
    }
}

proof fn lemma_surplus(objects: Seq<(Seq<char>, Seq<u8>)>, s: Seq<ItemView>, limit: u64)
    ensures
        surplus(objects, s, limit) <= s.len(),
        referenced_bytes(objects, s.skip(surplus(objects, s, limit) as int)) <= limit,
    decreases s.len(),
{
    if s.len() == 0 || referenced_bytes(objects, s) <= limit {
        assert(s.skip(0) =~= s);
    } else {
        lemma_surplus(objects, s.skip(1), limit);
        let n = surplus(objects, s.skip(1), limit) as int;
        assert(s.skip(1).skip(n) =~= s.skip(1 + n));
    }
}

/// What is kept of the objects when one more name is kept.
proof fn lemma_one_more_name(
    objects: Seq<(Seq<char>, Seq<u8>)>,
    keep: spec_fn((Seq<char>, Seq<u8>)) -> bool,
    more: spec_fn((Seq<char>, Seq<u8>)) -> bool,
    hash: Seq<char>,
)
    requires
        distinct_names(objects),
        forall|o: (Seq<char>, Seq<u8>)| #[trigger] more(o) == (keep(o) || o.0 == hash),
        forall|o: (Seq<char>, Seq<u8>)| o.0 == hash ==> !#[trigger] keep(o),
    ensures
        total_bytes(objects.filter(more)) == total_bytes(objects.filter(keep)) + object_size(
            objects,
            hash,
        ),
    decreases objects.len(),
{
    reveal(Seq::filter);
    if objects.len() > 0 {
        let front = objects.drop_last();
        let last = objects.last();
        assert(distinct_names(front)) by {
            assert forall|i: int, j: int|
                0 <= i < front.len() && 0 <= j < front.len() && (#[trigger] front[i]).0 == (
                #[trigger] front[j]).0 implies i == j by {
                assert(objects[i].0 == objects[j].0);
            }
        }
        lemma_one_more_name(front, keep, more, hash);
        lemma_find(front, hash);
        lemma_find(objects, hash);
        assert(front.filter(more).push(last).drop_last() =~= front.filter(more));
        assert(front.filter(keep).push(last).drop_last() =~= front.filter(keep));
        if last.0 == hash {
            if find(front, hash) is Some {
                let k = find(front, hash)->0;
                assert(objects[k].0 == objects[objects.len() - 1].0);
            }
            assert(find(objects, hash) == Some(objects.len() - 1));
            assert(object_size(front, hash) == 0);
            assert(object_size(objects, hash) == last.1.len());
        } else {
            assert(find(objects, hash) == find(front, hash));
            if find(front, hash) is Some {
                assert(objects[find(front, hash)->0] == front[find(front, hash)->0]);
            }
        }
    }
}

proof fn lemma_referenced_total(objects: Seq<(Seq<char>, Seq<u8>)>, s: Seq<ItemView>)
    requires
        distinct_names(objects),
    ensures
        total_bytes(objects.filter(|o: (Seq<char>, Seq<u8>)| refers_to(s, o.0)))
            == referenced_bytes(objects, s),
    decreases s.len(),
{
    let more = |o: (Seq<char>, Seq<u8>)| refers_to(s, o.0);
    if s.len() == 0 {
        lemma_filter_none(objects, more);
    } else {
        let front = s.drop_last();
        let last = s.last().hash;
        let keep = |o: (Seq<char>, Seq<u8>)| refers_to(front, o.0);
        lemma_referenced_total(objects, front);
        assert forall|o: (Seq<char>, Seq<u8>)| #[trigger] more(o) == (keep(o) || o.0 == last) by {
            if more(o) {
                let i = choose|i: int| 0 <= i < s.len() && (#[trigger] s[i]).hash == o.0;
                if i < front.len() {
                    assert(front[i].hash == o.0);
                }
            }
            if keep(o) {
                let i = choose|i: int| 0 <= i < front.len() && (#[trigger] front[i]).hash == o.0;
                assert(s[i].hash == o.0);
            }
            if o.0 == last {
                assert(s[s.len() - 1].hash == o.0);
            }
        }
        if refers_to(front, last) {
            assert forall|o: (Seq<char>, Seq<u8>)| #[trigger] more(o) == keep(o) by {}
            lemma_filter_agrees(objects, more, keep);
        } else {
            lemma_one_more_name(objects, keep, more, last);
        }
    }
}

proof fn lemma_filter_none(
    objects: Seq<(Seq<char>, Seq<u8>)>,
    keep: spec_fn((Seq<char>, Seq<u8>)) -> bool,
)
    requires
        forall|o: (Seq<char>, Seq<u8>)| !#[trigger] keep(o),
    ensures
        objects.filter(keep).len() == 0,
    decreases objects.len(),
{
    reveal(Seq::filter);
    if objects.len() > 0 {
        lemma_filter_none(objects.drop_last(), keep);
    }
}

proof fn lemma_filter_agrees(
    objects: Seq<(Seq<char>, Seq<u8>)>,
    a: spec_fn((Seq<char>, Seq<u8>)) -> bool,
    b: spec_fn((Seq<char>, Seq<u8>)) -> bool,
)
    requires
        forall|o: (Seq<char>, Seq<u8>)| #[trigger] a(o) == b(o),
    ensures
        objects.filter(a) == objects.filter(b),
    decreases objects.len(),
{
    reveal(Seq::filter);
    if objects.len() > 0 {
        lemma_filter_agrees(objects.drop_last(), a, b);
    }
}

proof fn lemma_surplus_is_needed(
    objects: Seq<(Seq<char>, Seq<u8>)>,
    s: Seq<ItemView>,
    limit: u64,
)
    ensures
        surplus(objects, s, limit) <= s.len(),
        surplus(objects, s, limit) > 0 ==> referenced_bytes(
            objects,
            s.skip(surplus(objects, s, limit) - 1),
        ) > limit,
    decreases s.len(),
{
    let gone = surplus(objects, s, limit) as int;
    if gone > 0 {
        lemma_surplus_is_needed(objects, s.skip(1), limit);
        if gone == 1 {
            assert(s.skip(0) =~= s);
        } else {
            assert(s.skip(1).skip(gone - 2) =~= s.skip(gone - 1));
        }
    }
}

/// Pruning brings the cache within the limit, leaves no object that nothing
/// refers to, lets go of the least recently used references first, and of no
/// more than needed: with the last of those the limit would be exceeded.
pub proof fn pruning_keeps_the_limit_and_the_recent(s: CacheView, limit: u64)
    requires
        s.wf(),
    ensures
        pruned(s, limit).wf(),
        total_bytes(pruned(s, limit).objects) <= limit,
        forall|i: int|
            0 <= i < pruned(s, limit).objects.len() ==> refers_to(
                survivors(s, limit),
                (#[trigger] pruned(s, limit).objects[i]).0,
            ),
        ({
            let sorted = by_age(items(s.references));
            let gone = surplus(s.objects, sorted, limit) as int;
            &&& 0 <= gone <= sorted.len()
            &&& survivors(s, limit) == sorted.skip(gone)
            &&& forall|i: int, j: int|
                0 <= i < gone && 0 <= j < survivors(s, limit).len() ==> (
                #[trigger] sorted[i]).modified <= (#[trigger] survivors(s, limit)[j]).modified
            &&& gone > 0 ==> referenced_bytes(s.objects, sorted.skip(gone - 1)) > limit
        }),
{
    let sorted = by_age(items(s.references));
    let rest = survivors(s, limit);
    lemma_surplus(s.objects, sorted, limit);
    lemma_surplus_is_needed(s.objects, sorted, limit);
    lemma_referenced_total(s.objects, rest);
    lemma_by_age_in_order(items(s.references));
    let keep = |o: (Seq<char>, Seq<u8>)| refers_to(rest, o.0);
    lemma_filtered_names(s.objects, keep);
    lemma_filtered_names(s.references, |r: (Seq<char>, ReferenceValue)| has_item(rest, r.0));
    assert forall|i: int| 0 <= i < pruned(s, limit).objects.len() implies refers_to(
        rest,
        (#[trigger] pruned(s, limit).objects[i]).0,
    ) by {
        s.objects.filter_lemma(keep);
        assert(keep(s.objects.filter(keep)[i]));
    }
    let gone = surplus(s.objects, sorted, limit) as int;
    assert forall|i: int, j: int| 0 <= i < gone && 0 <= j < rest.len() implies (
    #[trigger] sorted[i]).modified <= (#[trigger] rest[j]).modified by {
        assert(rest[j] == sorted[gone + j]);
    }
}

/// While the referenced objects are within the limit, no reference to a
/// digest is let go.
pub proof fn pruning_within_the_limit_drops_no_reference(s: CacheView, limit: u64)
    requires
        referenced_bytes(s.objects, by_age(items(s.references))) <= limit,
    ensures
        survivors(s, limit) == by_age(items(s.references)),
{
    let sorted = by_age(items(s.references));
    assert(sorted.skip(0) =~= sorted);
}

/// Looking an image up counts as using it, and only an image whose content
/// still has the digest under which it is kept is handed out; one that has not
/// is dropped.
pub proof fn only_sound_images_are_handed_out(s: CacheView, url: Seq<char>, now: u64)
    requires
        s.wf(),
    ensures
        resolved(s, url) matches Some(bytes) ==> {
            &&& looked_up(s, url, now).objects == s.objects
            &&& lookup(looked_up(s, url, now).references, address_digest(url)) matches Some(value)
                && value.modified == now && value.text == content_digest(bytes)
            &&& lookup(s.objects, content_digest(bytes)) == Some(bytes)
        },
        (lookup(s.references, address_digest(url)) matches Some(value) && valid(trim(value.text))
            && (lookup(s.objects, trim(value.text)) matches Some(bytes) && content_digest(bytes)
            != trim(value.text))) ==> resolved(s, url) is None && lookup(
            looked_up(s, url, now).objects,
            trim(lookup(s.references, address_digest(url))->0.text),
        ) is None,
        lookup(s.references, address_digest(url)) is None ==> looked_up(s, url, now) == s,
{
    looking_up_heals(s, url, now);
    let name = address_digest(url);
    if let Some(value) = lookup(s.references, name) {
        if let Some(hash) = referenced(value.text) {
            lemma_with_entry(
                s.references,
                name,
                ReferenceValue { text: hash, modified: now },
                name,
            );
            lemma_without_entry(s.objects, hash, hash);
        }
    }
}

/// An address is kept under its digest, and a reference names the image that
/// its text is the digest of, blanks around it aside.
pub proof fn addresses_are_kept_under_their_digest(url: Seq<char>, text: Seq<char>)
    ensures
        address_digest(url) == content_digest(vstd::utf8::encode_utf8(url)),
        valid(trim(text)) ==> referenced(text) == Some(trim(text)),
        !valid(trim(text)) ==> referenced(text) is None,
        DEFAULT_LIMIT_BYTES == 1024 * 1024 * 1024,
        SHRUNK_LIMIT_BYTES == 512 * 1024 * 1024,
{
}

/// Pruning keeps exactly the references that survive, and the images that they
/// name.
pub proof fn pruning_keeps_what_survives(s: CacheView, limit: u64)
    ensures
        pruned(s, limit).references == s.references.filter(
            |r: (Seq<char>, ReferenceValue)|
                exists|i: int|
                    0 <= i < survivors(s, limit).len() && (#[trigger] survivors(s, limit)[i]).name
                        == r.0,
        ),
        pruned(s, limit).objects == s.objects.filter(
            |o: (Seq<char>, Seq<u8>)|
                exists|i: int|
                    0 <= i < survivors(s, limit).len() && (#[trigger] survivors(s, limit)[i]).hash
                        == o.0,
        ),
{
    let rest = survivors(s, limit);
    assert((|r: (Seq<char>, ReferenceValue)| has_item(rest, r.0)) =~= (|
        r: (Seq<char>, ReferenceValue),
    |
        exists|i: int|
            0 <= i < survivors(s, limit).len() && (#[trigger] survivors(s, limit)[i]).name
                == r.0));
    assert((|o: (Seq<char>, Seq<u8>)| refers_to(rest, o.0)) =~= (|o: (Seq<char>, Seq<u8>)|
        exists|i: int|
            0 <= i < survivors(s, limit).len() && (#[trigger] survivors(s, limit)[i]).hash
                == o.0));
}

/// Every reference to an image is weighed, with its name, its image and the
/// time of its last use; what refers to nothing is not.
pub proof fn references_are_weighed(
    references: Seq<(Seq<char>, ReferenceValue)>,
    name: Seq<char>,
    value: ReferenceValue,
)
    ensures
        items(Seq::empty()).len() == 0,
        valid(trim(value.text)) ==> items(references.push((name, value))) == items(references).push(
            (ItemView { name, hash: trim(value.text), modified: value.modified }),
        ),
        !valid(trim(value.text)) ==> items(references.push((name, value))) == items(references),
{
    assert(references.push((name, value)).drop_last() =~= references);
}

/// Ordering by age loses nothing and adds nothing.
pub proof fn ordering_by_age_keeps_every_item(s: Seq<ItemView>)
    ensures
        by_age(s).to_multiset() == s.to_multiset(),
    decreases s.len(),
{
    if s.len() > 0 {
        let rest = s.drop_last();
        ordering_by_age_keeps_every_item(rest);
        lemma_placed_multiset(by_age(rest), s.last());
        assert(rest.push(s.last()) =~= s);
        rest.to_multiset_ensures();
        assert(s.to_multiset() =~= rest.to_multiset().insert(s.last()));
    } else {
        assert(by_age(s) =~= s);
    }
}

proof fn lemma_placed_multiset(sorted: Seq<ItemView>, item: ItemView)
    ensures
        placed(sorted, item).to_multiset() == sorted.to_multiset().insert(item),
    decreases sorted.len(),
{
    sorted.to_multiset_ensures();
    if !(sorted.len() == 0 || sorted.last().modified <= item.modified) {
        let rest = sorted.drop_last();
        lemma_placed_multiset(rest, item);
        rest.to_multiset_ensures();
        placed(rest, item).to_multiset_ensures();
        assert(rest.push(sorted.last()) =~= sorted);
        assert(placed(sorted, item).to_multiset() =~= sorted.to_multiset().insert(item));
    }
}

} // verus!
