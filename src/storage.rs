//! The record store's logic: records and their files, recovery after a
//! crash, search and lookup over the records read from the store, and the
//! stage-then-commit protocol that makes one document's records appear all
//! together or not at all.
//!
//! The store's caller performs the filesystem work: it lists the store's
//! directory, reads and writes files, and reports each outcome back; every
//! decision is taken here.

use vstd::prelude::*;
use crate::parser::{ParsedDoc, SlicedSection};
use crate::text::{append_chars, chars_of, contains_chars, is_substring, string_of};

verus! {

/// One persisted, independently retrievable unit of content.
#[derive(Debug, Clone)]
pub struct KnowledgeRecord {
    pub id: String,
    pub title: String,
    pub parent_doc_title: String,
    pub summary: String,
    pub content: String,
    pub source_path: String,
}

/// The mathematical content of a record.
pub struct RecordView {
    pub id: Seq<char>,
    pub title: Seq<char>,
    pub parent: Seq<char>,
    pub summary: Seq<char>,
    pub content: Seq<char>,
    pub source: Seq<char>,
}

impl View for KnowledgeRecord {
    type V = RecordView;

    open spec fn view(&self) -> RecordView {
        RecordView {
            id: self.id@,
            title: self.title@,
            parent: self.parent_doc_title@,
            summary: self.summary@,
            content: self.content@,
            source: self.source_path@,
        }
    }
}

impl KnowledgeRecord {
    /// A copy of this record, field for field.
    pub fn duplicate(&self) -> (r: KnowledgeRecord)
        ensures
            r@ == self@,
    {
        KnowledgeRecord {
            id: self.id.clone(),
            title: self.title.clone(),
            parent_doc_title: self.parent_doc_title.clone(),
            summary: self.summary.clone(),
            content: self.content.clone(),
            source_path: self.source_path.clone(),
        }
    }
}

/// An entry of the store's directory, as a listing reports it.
#[derive(Debug, Clone)]
pub struct DirEntry {
    pub name: String,
    pub is_dir: bool,
    pub is_file: bool,
}

/// The prefix that marks a staging directory.
pub open spec fn temp_prefix() -> Seq<char> {
    ".temp-"@
}

/// The extension of a record file.
pub open spec fn record_ext() -> Seq<char> {
    ".json"@
}

/// `p` is a prefix of `s`.
pub open spec fn has_prefix(s: Seq<char>, p: Seq<char>) -> bool {
    p.len() <= s.len() && s.take(p.len() as int) == p
}

/// `p` is a suffix of `s`.
pub open spec fn has_suffix(s: Seq<char>, p: Seq<char>) -> bool {
    p.len() <= s.len() && s.skip(s.len() - p.len()) == p
}

/// A staging directory left by an interrupted write.
pub open spec fn is_staging(e: DirEntry) -> bool {
    has_prefix(e.name@, temp_prefix()) && e.is_dir
}

/// A committed record file.
pub open spec fn is_record_entry(e: DirEntry) -> bool {
    !has_prefix(e.name@, temp_prefix()) && e.is_file && has_suffix(e.name@, record_ext())
}

/// The names of the staging directories among `es`, in order.
pub open spec fn staging_names(es: Seq<DirEntry>) -> Seq<Seq<char>>
    decreases es.len(),
{
    if es.len() == 0 {
        Seq::empty()
    } else {
        let p = staging_names(es.drop_last());
        if is_staging(es.last()) {
            p.push(es.last().name@)
        } else {
            p
        }
    }
}

/// The entries of `es` that are not staging directories, in order.
pub open spec fn kept_entries(es: Seq<DirEntry>) -> Seq<DirEntry>
    decreases es.len(),
{
    if es.len() == 0 {
        Seq::empty()
    } else {
        let p = kept_entries(es.drop_last());
        if is_staging(es.last()) {
            p
        } else {
            p.push(es.last())
        }
    }
}

/// The names of the record files among `es`, in order.
pub open spec fn record_names(es: Seq<DirEntry>) -> Seq<Seq<char>>
    decreases es.len(),
{
    if es.len() == 0 {
        Seq::empty()
    } else {
        let p = record_names(es.drop_last());
        if is_record_entry(es.last()) {
            p.push(es.last().name@)
        } else {
            p
        }
    }
}

/// The case folding that `str::to_lowercase` applies.
pub uninterp spec fn lower_of(s: Seq<char>) -> Seq<char>;

/// Relies on `str::to_lowercase`: the lowercase form of `s`, which depends
/// on its characters alone.
#[verifier::external_body]
fn to_lower(s: &str) -> (r: String)
    ensures
        r@ == lower_of(s@),
{
    s.to_lowercase()
}

/// A record matches a query whose lowercase form is `q` when its lowercase
/// title or summary contains `q`.
pub open spec fn matches_folded(title: Seq<char>, summary: Seq<char>, q: Seq<char>) -> bool {
    is_substring(title, q) || is_substring(summary, q)
}

/// A record matches `query`, compared without regard to case.
pub open spec fn record_matches(r: RecordView, query: Seq<char>) -> bool {
    matches_folded(lower_of(r.title), lower_of(r.summary), lower_of(query))
}

/// The records of `rs` that match `query`, in order.
pub open spec fn matching(rs: Seq<RecordView>, query: Seq<char>) -> Seq<RecordView>
    decreases rs.len(),
{
    if rs.len() == 0 {
        Seq::empty()
    } else {
        let p = matching(rs.drop_last(), query);
        if record_matches(rs.last(), query) {
            p.push(rs.last())
        } else {
            p
        }
    }
}

/// The first record of `rs` whose identifier is `id`.
pub open spec fn find_by_id(rs: Seq<RecordView>, id: Seq<char>) -> Option<RecordView>
    decreases rs.len(),
{
    if rs.len() == 0 {
        None
    } else if rs[0].id == id {
        Some(rs[0])
    } else {
        find_by_id(rs.drop_first(), id)
    }
}

/// The views of a list of records.
pub open spec fn views(rs: Seq<KnowledgeRecord>) -> Seq<RecordView> {
    rs.map_values(|r: KnowledgeRecord| r@)
}

/// Whether `s` starts with `p`.
fn starts_with_chars(s: &[char], p: &[char]) -> (r: bool)
    ensures
        r == has_prefix(s@, p@),
{
    if p.len() > s.len() {
        return false;
    }
    let mut i: usize = 0;
    while i < p.len()
        invariant
            p@.len() <= s@.len(),
            i <= p@.len(),
            forall|k: int| 0 <= k < i ==> s@[k] == p@[k],
        decreases p@.len() - i,
    {
        if s[i] != p[i] {
            assert(s@.take(p@.len() as int)[i as int] != p@[i as int]);
            return false;
        }
        i = i + 1;
    }
    assert(s@.take(p@.len() as int) =~= p@);
    true
}

/// Whether `s` ends with `p`.
fn ends_with_chars(s: &[char], p: &[char]) -> (r: bool)
    ensures
        r == has_suffix(s@, p@),
{
    if p.len() > s.len() {
        return false;
    }
    let sl = s.len();
    let off = sl - p.len();
    let mut i: usize = 0;
    while i < p.len()
        invariant
            sl == s@.len(),
            p@.len() <= s@.len(),
            off == s@.len() - p@.len(),
            i <= p@.len(),
            forall|k: int| 0 <= k < i ==> s@[off + k] == p@[k],
        decreases p@.len() - i,
    {
        if s[off + i] != p[i] {
            assert(s@.skip(off as int)[i as int] != p@[i as int]);
            return false;
        }
        i = i + 1;
    }
    assert(s@.skip(off as int) =~= p@);
    true
}

/// The identifiers of the records of `rs`, in order.
pub open spec fn ids_of(rs: Seq<KnowledgeRecord>) -> Seq<Seq<char>> {
    rs.map_values(|r: KnowledgeRecord| r.id@)
}

/// How many records a document yields: one per section, or one for the
/// whole document when it has no sections.
pub open spec fn record_count(doc: ParsedDoc) -> nat {
    if doc.sections@.len() == 0 {
        1
    } else {
        doc.sections@.len()
    }
}

/// The record a document yields under identifier `id` when it has no sections.
pub open spec fn fallback_record(doc: ParsedDoc, id: Seq<char>) -> RecordView {
    RecordView {
        id: id,
        title: doc.title@,
        parent: doc.title@,
        summary: doc.summary@,
        content: doc.content@,
        source: doc.path@,
    }
}

/// The record that section `s` of a document from `path` yields under identifier `id`.
pub open spec fn section_record(s: SlicedSection, path: Seq<char>, id: Seq<char>) -> RecordView {
    RecordView {
        id: id,
        title: s.section_title@,
        parent: s.parent_doc_title@,
        summary: s.summary@,
        content: s.content@,
        source: path,
    }
}

/// The `i`-th record a document yields, under identifier `id`.
pub open spec fn planned_record(doc: ParsedDoc, i: int, id: Seq<char>) -> RecordView {
    if doc.sections@.len() == 0 {
        fallback_record(doc, id)
    } else {
        section_record(doc.sections@[i], doc.path@, id)
    }
}

/// A lowercase hexadecimal digit.
pub open spec fn is_lower_hex(c: char) -> bool {
    ('0' <= c && c <= '9') || ('a' <= c && c <= 'f')
}

/// The hyphenated form of a UUID: 36 characters, hyphens at positions 8,
/// 13, 18 and 23, lowercase hexadecimal digits everywhere else.
pub open spec fn is_uuid_text(s: Seq<char>) -> bool {
    &&& s.len() == 36
    &&& forall|i: int|
        0 <= i < 36 ==> if i == 8 || i == 13 || i == 18 || i == 23 {
            #[trigger] s[i] == '-'
        } else {
            is_lower_hex(s[i])
        }
}

/// Relies on `uuid::Uuid::new_v4` and its `Display` form, which writes the
/// hyphenated lowercase text: a random identifier.
#[verifier::external_body]
fn fresh_uuid() -> (r: String)
    ensures
        is_uuid_text(r@),
{
    uuid::Uuid::new_v4().to_string()
}

/// How many times a new identifier is drawn before giving up, should every
/// draw repeat an identifier already taken.
pub const MAX_ID_DRAWS: usize = 16;

/// Whether `u` is one of `ids`.
fn has_id(ids: &Vec<String>, u: &String) -> (r: bool)
    ensures
        r == exists|i: int| 0 <= i < ids@.len() && #[trigger] ids@[i]@ == u@,
{
    let mut i: usize = 0;
    while i < ids.len()
        invariant
            i <= ids@.len(),
            forall|j: int| 0 <= j < i ==> #[trigger] ids@[j]@ != u@,
        decreases ids@.len() - i,
    {
        if ids[i] == *u {
            return true;
        }
        i = i + 1;
    }
    false
}

/// The identifiers `ids` are UUID texts, pairwise distinct.
pub open spec fn distinct_uuids(ids: Seq<String>) -> bool {
    &&& forall|i: int| 0 <= i < ids.len() ==> is_uuid_text(#[trigger] ids[i]@)
    &&& forall|i: int, j: int| 0 <= i < j < ids.len() ==> #[trigger] ids[i]@ != #[trigger] ids[j]@
}

/// `n` fresh random identifiers, pairwise distinct: a draw that repeats an
/// earlier one is drawn again. `None` only where `MAX_ID_DRAWS` draws in a
/// row all repeated one.
fn fresh_ids(n: usize) -> (r: Option<Vec<String>>)
    ensures
        r matches Some(ids) ==> ids@.len() == n && distinct_uuids(ids@),
{
    let mut ids: Vec<String> = Vec::new();
    while ids.len() < n
        invariant
            ids@.len() <= n,
            distinct_uuids(ids@),
        decreases n - ids@.len(),
    {
        let mut drawn: Option<String> = None;
        let mut attempts: usize = 0;
        while attempts < MAX_ID_DRAWS && drawn.is_none()
            invariant
                attempts <= MAX_ID_DRAWS,
                drawn matches Some(u) ==> is_uuid_text(u@) && forall|i: int|
                    0 <= i < ids@.len() ==> #[trigger] ids@[i]@ != u@,
            decreases MAX_ID_DRAWS - attempts,
        {
            let u = fresh_uuid();
            if !has_id(&ids, &u) {
                drawn = Some(u);
            }
            attempts = attempts + 1;
        }
        match drawn {
            Some(u) => {
                ids.push(u);
            },
            None => {
                return None;
            },
        }
    }
    Some(ids)
}

/// The store of records kept in one directory.
pub struct KnowledgeStore {
    data_dir: String,
}

impl KnowledgeStore {
    /// The directory that holds the records.
    pub closed spec fn dir(&self) -> Seq<char> {
        self.data_dir@
    }

    /// A store over the directory `data_dir`.
    pub fn new(data_dir: &str) -> (r: KnowledgeStore)
        ensures
            r.dir() == data_dir@,
    {
        KnowledgeStore { data_dir: string_of(&chars_of(data_dir)) }
    }

    /// The directory that holds the records.
    pub fn data_dir(&self) -> (r: &str)
        ensures
            r@ == self.dir(),
    {
        self.data_dir.as_str()
    }

    /// Whether the entry called `name` is a staging entry, which readers
    /// skip and recovery removes.
    pub fn is_temp_file(name: &str) -> (r: bool)
        ensures
            r == has_prefix(name@, temp_prefix()),
    {
        starts_with_chars(&chars_of(name), &chars_of(".temp-"))
    }

    /// Whether `e` is a committed record file.
    pub fn is_record_file(e: &DirEntry) -> (r: bool)
        ensures
            r == is_record_entry(*e),
    {
        !Self::is_temp_file(e.name.as_str()) && e.is_file && ends_with_chars(
            &chars_of(e.name.as_str()),
            &chars_of(".json"),
        )
    }

    /// The name of the file that holds the record with identifier `id`.
    pub fn record_file_name(id: &str) -> (r: String)
        ensures
            r@ == id@ + record_ext(),
    {
        let mut v = chars_of(id);
        append_chars(&mut v, &chars_of(".json"));
        string_of(&v)
    }

    /// The name of the staging directory with unique suffix `suffix`.
    pub fn temp_dir_name(suffix: &str) -> (r: String)
        ensures
            r@ == temp_prefix() + suffix@,
    {
        let mut v = chars_of(".temp-");
        append_chars(&mut v, &chars_of(suffix));
        string_of(&v)
    }

    /// The staging directories among the entries of the store's directory:
    /// what recovery removes when the store is opened.
    pub fn orphaned_temp_dirs(entries: &Vec<DirEntry>) -> (r: Vec<String>)
        ensures
            r@.len() == staging_names(entries@).len(),
            forall|i: int| 0 <= i < r@.len() ==> #[trigger] r@[i]@ == staging_names(entries@)[i],
    {
        let mut r: Vec<String> = Vec::new();
        let mut k: usize = 0;
        while k < entries.len()
            invariant
                k <= entries@.len(),
                r@.len() == staging_names(entries@.take(k as int)).len(),
                forall|i: int| 0 <= i < r@.len() ==> #[trigger] r@[i]@ == staging_names(entries@.take(k as int))[i],
            decreases entries@.len() - k,
        {
            assert(entries@.take(k + 1).drop_last() =~= entries@.take(k as int));
            let e = &entries[k];
            if Self::is_temp_file(e.name.as_str()) && e.is_dir {
                r.push(e.name.clone());
            }
            k = k + 1;
        }
        assert(entries@.take(entries@.len() as int) =~= entries@);
        r
    }

    /// The record files among the entries of the store's directory, in
    /// listing order: what search and lookup read.
    pub fn record_files(entries: &Vec<DirEntry>) -> (r: Vec<String>)
        ensures
            r@.len() == record_names(entries@).len(),
            forall|i: int| 0 <= i < r@.len() ==> #[trigger] r@[i]@ == record_names(entries@)[i],
    {
        let mut r: Vec<String> = Vec::new();
        let mut k: usize = 0;
        while k < entries.len()
            invariant
                k <= entries@.len(),
                r@.len() == record_names(entries@.take(k as int)).len(),
                forall|i: int| 0 <= i < r@.len() ==> #[trigger] r@[i]@ == record_names(entries@.take(k as int))[i],
            decreases entries@.len() - k,
        {
            assert(entries@.take(k + 1).drop_last() =~= entries@.take(k as int));
            let e = &entries[k];
            if Self::is_record_file(e) {
                r.push(e.name.clone());
            }
            k = k + 1;
        }
        assert(entries@.take(entries@.len() as int) =~= entries@);
        r
    }

    /// Whether the record with lowercase title `title` and lowercase
    /// summary `summary` matches the lowercase query `q`.
    pub fn matches_folded(title: &str, summary: &str, q: &str) -> (r: bool)
        ensures
            r == matches_folded(title@, summary@, q@),
    {
        let qv = chars_of(q);
        contains_chars(&chars_of(title), &qv) || contains_chars(&chars_of(summary), &qv)
    }

    /// Whether `record` matches `query`, compared without regard to case.
    pub fn record_matches(record: &KnowledgeRecord, query: &str) -> (r: bool)
        ensures
            r == record_matches(record@, query@),
    {
        let q = to_lower(query);
        let t = to_lower(record.title.as_str());
        let s = to_lower(record.summary.as_str());
        Self::matches_folded(t.as_str(), s.as_str(), q.as_str())
    }

    /// The records among `records` (the store's records, as read from its
    /// record files in listing order) whose title or summary contains
    /// `query` without regard to case, in the same order.
    pub fn search(&self, records: &Vec<KnowledgeRecord>, query: &str) -> (r: Vec<KnowledgeRecord>)
        ensures
            views(r@) == matching(views(records@), query@),
    {
        let mut r: Vec<KnowledgeRecord> = Vec::new();
        let mut k: usize = 0;
        while k < records.len()
            invariant
                k <= records@.len(),
                views(r@) == matching(views(records@.take(k as int)), query@),
            decreases records@.len() - k,
        {
            assert(records@.take(k + 1).drop_last() =~= records@.take(k as int));
            assert(views(records@.take(k + 1)).drop_last() =~= views(records@.take(k as int)));
            let rec = &records[k];
            if Self::record_matches(rec, query) {
                r.push(rec.duplicate());
                assert(views(r@) =~= matching(views(records@.take(k as int)), query@).push(rec@));
            }
            k = k + 1;
        }
        assert(records@.take(records@.len() as int) =~= records@);
        r
    }

    /// The first record among `records` (the store's records, as read from
    /// its record files in listing order) whose identifier is `id`.
    pub fn get(&self, records: &Vec<KnowledgeRecord>, id: &str) -> (r: Option<KnowledgeRecord>)
        ensures
            r is None <==> find_by_id(views(records@), id@) is None,
            r matches Some(x) ==> find_by_id(views(records@), id@) == Some(x@),
    {
        let wanted = string_of(&chars_of(id));
        assert(records@.skip(0) =~= records@);
        let mut k: usize = 0;
        while k < records.len()
            invariant
                k <= records@.len(),
                wanted@ == id@,
                find_by_id(views(records@), id@) == find_by_id(views(records@.skip(k as int)), id@),
            decreases records@.len() - k,
        {
            assert(views(records@.skip(k as int)).drop_first() =~= views(records@.skip(k + 1)));
            assert(views(records@.skip(k as int))[0] == records@[k as int]@);
            if records[k].id == wanted {
                return Some(records[k].duplicate());
            }
            k = k + 1;
        }
        None
    }

    /// The records that `doc` yields, the `i`-th under identifier `ids[i]`:
    /// one per section, or one for the whole document when it has none.
    pub fn build_records(doc: &ParsedDoc, ids: &Vec<String>) -> (r: Vec<KnowledgeRecord>)
        requires
            ids@.len() == record_count(*doc),
        ensures
            r@.len() == record_count(*doc),
            forall|i: int| 0 <= i < r@.len() ==> #[trigger] r@[i]@ == planned_record(*doc, i, ids@[i]@),
    {
        let mut r: Vec<KnowledgeRecord> = Vec::new();
        if doc.sections.len() == 0 {
            r.push(
                KnowledgeRecord {
                    id: ids[0].clone(),
                    title: doc.title.clone(),
                    parent_doc_title: doc.title.clone(),
                    summary: doc.summary.clone(),
                    content: doc.content.clone(),
                    source_path: doc.path.clone(),
                },
            );
            return r;
        }
        let mut i: usize = 0;
        while i < doc.sections.len()
            invariant
                ids@.len() == doc.sections@.len(),
                doc.sections@.len() > 0,
                i <= doc.sections@.len(),
                r@.len() == i,
                forall|j: int| 0 <= j < i ==> #[trigger] r@[j]@ == planned_record(*doc, j, ids@[j]@),
            decreases doc.sections@.len() - i,
        {
            let s = &doc.sections[i];
            r.push(
                KnowledgeRecord {
                    id: ids[i].clone(),
                    title: s.section_title.clone(),
                    parent_doc_title: s.parent_doc_title.clone(),
                    summary: s.summary.clone(),
                    content: s.content.clone(),
                    source_path: doc.path.clone(),
                },
            );
            i = i + 1;
        }
        r
    }

    /// Begins ingesting `doc`: gives each of its records a fresh random
    /// identifier, distinct from the others, and its staging directory a
    /// fresh random name. The caller then performs the transaction's steps.
    /// `None` only where drawing a distinct identifier failed `MAX_ID_DRAWS`
    /// times in a row.
    pub fn add(&self, doc: &ParsedDoc) -> (r: Option<IngestTx>)
        ensures
            r matches Some(tx) ==> {
                &&& tx.wf()
                &&& tx.next() == IngestAction::CreateStaging
                &&& tx.spec_records()@.len() == record_count(*doc)
                &&& forall|i: int|
                    0 <= i < tx.spec_records()@.len() ==> #[trigger] tx.spec_records()@[i]@
                        == planned_record(*doc, i, tx.spec_records()@[i].id@)
                &&& forall|i: int|
                    0 <= i < tx.spec_records()@.len() ==> is_uuid_text(
                        #[trigger] tx.spec_records()@[i].id@,
                    )
                &&& forall|i: int, j: int|
                    0 <= i < j < tx.spec_records()@.len() ==> #[trigger] tx.spec_records()@[i].id@
                        != #[trigger] tx.spec_records()@[j].id@
            },
    {
        let n: usize = if doc.sections.len() == 0 {
            1
        } else {
            doc.sections.len()
        };
        let ids = match fresh_ids(n) {
            Some(ids) => ids,
            None => {
                return None;
            },
        };
        let records = Self::build_records(doc, &ids);
        assert forall|i: int| 0 <= i < records@.len() implies #[trigger] records@[i].id@ == ids@[i]@ by {
            assert(records@[i]@ == planned_record(*doc, i, ids@[i]@));
        }
        let u = fresh_uuid();
        let staging = Self::temp_dir_name(u.as_str());
        assert((temp_prefix() + u@).take(temp_prefix().len() as int) =~= temp_prefix());
        Some(IngestTx::new(records, staging))
    }
}

/// What kind of failure stopped an operation of the store.
#[derive(Debug, Clone, Copy, PartialEq, Eq, Structural)]
pub enum ErrorKind {
    /// The input document does not exist.
    NotFound,
    /// A record could not be encoded.
    Serialization,
    /// Creating, writing, moving or deleting a file or directory failed.
    IoFailure,
    /// Undoing a partly committed ingestion failed too; files may be left over.
    Rollback,
}

/// A step of the write protocol, performed by the store's caller.
#[derive(Debug, Clone, Copy, PartialEq, Eq, Structural)]
pub enum IngestAction {
    /// Create the staging directory.
    CreateStaging,
    /// Encode record `i` and write it into the staging directory.
    Stage(usize),
    /// Move record `i`'s file from the staging directory into the store.
    Commit(usize),
    /// Delete record `i`'s file from the store, undoing its commit.
    Uncommit(usize),
    /// Delete the staging directory with all it holds.
    RemoveStaging,
    /// Nothing is left to do.
    Finish,
}

/// Why an ingestion failed: the kind of failure and the step that failed.
#[derive(Debug, Clone, Copy, PartialEq, Eq, Structural)]
pub struct StoreError {
    pub kind: ErrorKind,
    pub step: IngestAction,
}

/// The set `{0, 1, ..., n - 1}`.
pub open spec fn below(n: int) -> Set<int> {
    Set::new(|x: int| 0 <= x < n)
}

/// The step that follows `a` in a transaction over `n` records, once `a`
/// has succeeded (`err` is `None`) or failed.
pub open spec fn next_step(a: IngestAction, n: nat, err: Option<ErrorKind>) -> IngestAction {
    match a {
        IngestAction::CreateStaging => if err is Some {
            IngestAction::Finish
        } else {
            IngestAction::Stage(0)
        },
        IngestAction::Stage(i) => if err is Some {
            IngestAction::RemoveStaging
        } else if i + 1 < n {
            IngestAction::Stage((i + 1) as usize)
        } else {
            IngestAction::Commit(0)
        },
        IngestAction::Commit(i) => if err is Some {
            if i == 0 {
                IngestAction::RemoveStaging
            } else {
                IngestAction::Uncommit((i - 1) as usize)
            }
        } else if i + 1 < n {
            IngestAction::Commit((i + 1) as usize)
        } else {
            IngestAction::RemoveStaging
        },
        IngestAction::Uncommit(j) => if j == 0 {
            IngestAction::RemoveStaging
        } else {
            IngestAction::Uncommit((j - 1) as usize)
        },
        IngestAction::RemoveStaging => IngestAction::Finish,
        IngestAction::Finish => IngestAction::Finish,
    }
}

/// Whether `a` is one of the forward steps whose failure aborts the transaction.
pub open spec fn is_forward(a: IngestAction) -> bool {
    a is CreateStaging || a is Stage || a is Commit
}

/// The first failure of the transaction, once `a` has had outcome `err`.
pub open spec fn failure_after(
    f: Option<StoreError>,
    a: IngestAction,
    err: Option<ErrorKind>,
) -> Option<StoreError> {
    match err {
        Some(k) => if f is None && is_forward(a) {
            Some(StoreError { kind: k, step: a })
        } else {
            f
        },
        None => f,
    }
}

/// The records of an ingestion left in the store by undo steps that
/// failed: `o` holds their indices.
pub open spec fn index_set(o: Seq<usize>) -> Set<int> {
    Set::new(|k: int| exists|i: int| 0 <= i < o.len() && o[i] as int == k)
}

/// The indices of records left in the store once `a` has had outcome `err`:
/// a failed undo leaves its record there.
pub open spec fn orphans_after(o: Seq<usize>, a: IngestAction, err: Option<ErrorKind>) -> Seq<usize> {
    match a {
        IngestAction::Uncommit(j) => if err is Some {
            o.push(j)
        } else {
            o
        },
        _ => o,
    }
}

/// One ingestion in progress: the records it writes, the staging
/// directory it writes them into, the next step, and what has failed,
/// including which records failed undo steps left in the store.
///
/// Beside these it keeps, as ghost state, which of its records are in the
/// store's directory and whether its staging directory exists, as the
/// outcomes reported so far imply.
pub struct IngestTx {
    records: Vec<KnowledgeRecord>,
    staging: String,
    next: IngestAction,
    failure: Option<StoreError>,
    orphans: Vec<usize>,
    cleanup_failed: bool,
    live: Ghost<Set<int>>,
    staged: Ghost<bool>,
}

impl IngestTx {
    /// The records that this ingestion writes, in section order.
    pub closed spec fn spec_records(&self) -> Vec<KnowledgeRecord> {
        self.records
    }

    /// The name of the staging directory.
    pub closed spec fn staging(&self) -> Seq<char> {
        self.staging@
    }

    /// The step the caller performs next.
    pub closed spec fn next(&self) -> IngestAction {
        self.next
    }

    /// The first failure of a forward step, if any.
    pub closed spec fn failure(&self) -> Option<StoreError> {
        self.failure
    }

    /// The indices, in the order they were met, of the records whose
    /// undo step failed, so that they stay in the store.
    pub closed spec fn orphans(&self) -> Seq<usize> {
        self.orphans@
    }

    /// Whether undoing a commit failed.
    pub open spec fn rollback_failed(&self) -> bool {
        self.orphans().len() > 0
    }

    /// Whether deleting the staging directory failed.
    pub closed spec fn cleanup_failed(&self) -> bool {
        self.cleanup_failed
    }

    /// The indices of this ingestion's records that are in the store's directory.
    pub closed spec fn live(&self) -> Set<int> {
        self.live@
    }

    /// Whether the staging directory exists.
    pub closed spec fn staged(&self) -> bool {
        self.staged@
    }

    /// The number of records.
    pub open spec fn n(&self) -> nat {
        self.spec_records()@.len()
    }

    /// The state invariant: before any commit nothing is in the store;
    /// while committing, exactly the records committed so far are; while
    /// undoing, exactly those not yet undone and those whose undo failed
    /// are; at the end, all records are in the store after success, and
    /// after a failure exactly those whose undo failed; and the staging
    /// directory is gone unless deleting it failed.
    pub open spec fn wf(&self) -> bool {
        &&& self.n() >= 1
        &&& has_prefix(self.staging(), temp_prefix())
        &&& match self.next() {
            IngestAction::CreateStaging => {
                &&& self.live() == Set::<int>::empty()
                &&& !self.staged()
                &&& self.failure() is None
                &&& self.orphans().len() == 0
                &&& !self.cleanup_failed()
            },
            IngestAction::Stage(i) => {
                &&& i < self.n()
                &&& self.live() == Set::<int>::empty()
                &&& self.staged()
                &&& self.failure() is None
                &&& self.orphans().len() == 0
                &&& !self.cleanup_failed()
            },
            IngestAction::Commit(i) => {
                &&& i < self.n()
                &&& self.live() == below(i as int)
                &&& self.staged()
                &&& self.failure() is None
                &&& self.orphans().len() == 0
                &&& !self.cleanup_failed()
            },
            IngestAction::Uncommit(j) => {
                &&& j < self.n()
                &&& self.live() == below(j + 1).union(index_set(self.orphans()))
                &&& forall|i: int|
                    0 <= i < self.orphans().len() ==> j < #[trigger] self.orphans()[i] < self.n()
                &&& self.staged()
                &&& self.failure() is Some
                &&& !self.cleanup_failed()
            },
            IngestAction::RemoveStaging => {
                &&& self.failure() is None ==> self.live() == below(self.n() as int)
                    && !self.rollback_failed()
                &&& self.failure() is Some ==> self.live() == index_set(self.orphans())
                &&& forall|i: int|
                    0 <= i < self.orphans().len() ==> #[trigger] self.orphans()[i] < self.n()
                &&& self.staged()
                &&& !self.cleanup_failed()
            },
            IngestAction::Finish => {
                &&& self.failure() is None ==> self.live() == below(self.n() as int)
                    && !self.rollback_failed()
                &&& self.failure() is Some ==> self.live() == index_set(self.orphans())
                &&& forall|i: int|
                    0 <= i < self.orphans().len() ==> #[trigger] self.orphans()[i] < self.n()
                &&& !self.cleanup_failed() ==> !self.staged()
            },
        }
    }

    /// A transaction that writes `records` through the staging directory
    /// called `staging`.
    pub fn new(records: Vec<KnowledgeRecord>, staging: String) -> (r: IngestTx)
        requires
            records@.len() >= 1,
            has_prefix(staging@, temp_prefix()),
        ensures
            r.wf(),
            r.spec_records() == records,
            r.staging() == staging@,
            r.next() == IngestAction::CreateStaging,
    {
        IngestTx {
            records,
            staging,
            next: IngestAction::CreateStaging,
            failure: None,
            orphans: Vec::new(),
            cleanup_failed: false,
            live: Ghost(Set::empty()),
            staged: Ghost(false),
        }
    }

    /// The records that this ingestion writes, in section order.
    pub fn records(&self) -> (r: &Vec<KnowledgeRecord>)
        ensures
            r == self.spec_records(),
    {
        &self.records
    }

    /// The name of the staging directory.
    pub fn staging_name(&self) -> (r: &str)
        ensures
            r@ == self.staging(),
    {
        self.staging.as_str()
    }

    /// The step the caller performs next.
    pub fn next_action(&self) -> (r: IngestAction)
        ensures
            r == self.next(),
    {
        self.next
    }

    /// The indices of the records that undo steps which failed left in the
    /// store, in the order they were met.
    pub fn left_in_store(&self) -> (r: &Vec<usize>)
        ensures
            r@ == self.orphans(),
    {
        &self.orphans
    }

    /// Whether deleting the staging directory failed; it is then left for
    /// the recovery that opening the store performs.
    pub fn staging_left(&self) -> (r: bool)
        ensures
            r == self.cleanup_failed(),
    {
        self.cleanup_failed
    }

    /// Records the outcome of the step just performed (`None` for success,
    /// else the kind of failure) and moves to the next step: after a
    /// failure before any commit, the staging directory is deleted; after
    /// a failed commit, every record committed so far is deleted again, in
    /// reverse order, and then the staging directory.
    pub fn advance(&mut self, err: Option<ErrorKind>)
        requires
            old(self).wf(),
            old(self).next() != IngestAction::Finish,
        ensures
            final(self).wf(),
            final(self).spec_records() == old(self).spec_records(),
            final(self).staging() == old(self).staging(),
            final(self).next() == next_step(old(self).next(), old(self).n(), err),
            final(self).failure() == failure_after(old(self).failure(), old(self).next(), err),
            final(self).orphans() == orphans_after(old(self).orphans(), old(self).next(), err),
            final(self).cleanup_failed() == (old(self).cleanup_failed() || (err is Some
                && old(self).next() is RemoveStaging)),
    {
        let n = self.records.len();
        match self.next {
            IngestAction::CreateStaging => {
                match err {
                    Some(k) => {
                        self.failure = Some(StoreError { kind: k, step: IngestAction::CreateStaging });
                        self.next = IngestAction::Finish;
                        assert(index_set(self.orphans@) =~= Set::<int>::empty());
                    },
                    None => {
                        self.staged = Ghost(true);
                        self.next = IngestAction::Stage(0);
                    },
                }
            },
            IngestAction::Stage(i) => {
                match err {
                    Some(k) => {
                        self.failure = Some(StoreError { kind: k, step: IngestAction::Stage(i) });
                        self.next = IngestAction::RemoveStaging;
                        assert(index_set(self.orphans@) =~= Set::<int>::empty());
                    },
                    None => {
                        if i + 1 < n {
                            self.next = IngestAction::Stage(i + 1);
                        } else {
                            self.next = IngestAction::Commit(0);
                            assert(Set::<int>::empty() =~= below(0));
                        }
                    },
                }
            },
            IngestAction::Commit(i) => {
                match err {
                    Some(k) => {
                        self.failure = Some(StoreError { kind: k, step: IngestAction::Commit(i) });
                        assert(index_set(self.orphans@) =~= Set::<int>::empty());
                        if i == 0 {
                            self.next = IngestAction::RemoveStaging;
                            assert(below(0) =~= Set::<int>::empty());
                        } else {
                            self.next = IngestAction::Uncommit(i - 1);
                            assert(self.live@ =~= below(i as int).union(index_set(self.orphans@)));
                        }
                    },
                    None => {
                        self.live = Ghost(self.live@.insert(i as int));
                        assert(self.live@ =~= below(i + 1));
                        if i + 1 < n {
                            self.next = IngestAction::Commit(i + 1);
                        } else {
                            self.next = IngestAction::RemoveStaging;
                        }
                    },
                }
            },
            IngestAction::Uncommit(j) => {
                let ghost o = self.orphans@;
                if err.is_some() {
                    self.orphans.push(j);
                    assert(index_set(self.orphans@) =~= index_set(o).insert(j as int)) by {
                        assert(self.orphans@[o.len() as int] == j);
                        assert forall|k: int| index_set(o).contains(k) implies index_set(
                            self.orphans@,
                        ).contains(k) by {
                            let i = choose|i: int| 0 <= i < o.len() && o[i] as int == k;
                            assert(self.orphans@[i] == o[i]);
                        }
                        assert forall|k: int| index_set(self.orphans@).contains(k) implies index_set(
                            o,
                        ).insert(j as int).contains(k) by {
                            let i = choose|i: int|
                                0 <= i < self.orphans@.len() && self.orphans@[i] as int == k;
                            if i < o.len() {
                                assert(self.orphans@[i] == o[i]);
                            }
                        }
                    }
                    assert(self.live@ =~= below(j as int).union(index_set(self.orphans@)));
                } else {
                    assert(!index_set(o).contains(j as int));
                    self.live = Ghost(self.live@.remove(j as int));
                    assert(self.live@ =~= below(j as int).union(index_set(self.orphans@)));
                }
                if j == 0 {
                    self.next = IngestAction::RemoveStaging;
                    assert(self.live@ =~= index_set(self.orphans@));
                } else {
                    self.next = IngestAction::Uncommit(j - 1);
                }
            },
            IngestAction::RemoveStaging => {
                if err.is_some() {
                    self.cleanup_failed = true;
                } else {
                    self.staged = Ghost(false);
                }
                self.next = IngestAction::Finish;
            },
            IngestAction::Finish => {},
        }
    }

    /// The outcome of a finished ingestion: the records' identifiers in
    /// section order after success; else the first failure, reported as a
    /// failed rollback where undoing a commit failed too.
    pub fn outcome(&self) -> (r: Result<Vec<String>, StoreError>)
        requires
            self.wf(),
            self.next() == IngestAction::Finish,
        ensures
            self.failure() is None ==> (r matches Ok(ids) && ids@.map_values(|s: String| s@)
                == ids_of(self.spec_records()@)),
            self.failure() matches Some(f) ==> r == Err::<Vec<String>, StoreError>(
                if self.rollback_failed() {
                    StoreError { kind: ErrorKind::Rollback, step: f.step }
                } else {
                    f
                },
            ),
    {
        match self.failure {
            Some(f) => {
                if self.orphans.len() > 0 {
                    Err(StoreError { kind: ErrorKind::Rollback, step: f.step })
                } else {
                    Err(f)
                }
            },
            None => {
                let mut ids: Vec<String> = Vec::new();
                let mut i: usize = 0;
                while i < self.records.len()
                    invariant
                        i <= self.records@.len(),
                        ids@.len() == i,
                        forall|j: int| 0 <= j < i ==> #[trigger] ids@[j]@ == self.records@[j].id@,
                    decreases self.records@.len() - i,
                {
                    ids.push(self.records[i].id.clone());
                    i = i + 1;
                }
                assert(ids@.map_values(|s: String| s@) =~= ids_of(self.records@));
                Ok(ids)
            },
        }
    }
}

/// Recovery is idempotent and touches no record: once the staging
/// directories that `orphaned_temp_dirs` names are deleted, the entries
/// left hold no staging directory, so a second recovery deletes nothing;
/// every other entry is still there, and the record files are exactly
/// those before, in the same order.
pub proof fn lemma_recovery_idempotent(es: Seq<DirEntry>)
    ensures
        staging_names(kept_entries(es)).len() == 0,
        record_names(kept_entries(es)) == record_names(es),
        forall|k: int| 0 <= k < es.len() && !is_staging(es[k]) ==> kept_entries(es).contains(
            #[trigger] es[k],
        ),
    decreases es.len(),
{
    if es.len() > 0 {
        let init = es.drop_last();
        lemma_recovery_idempotent(init);
        let e = es.last();
        let kept = kept_entries(es);
        if !is_staging(e) {
            assert(kept.drop_last() =~= kept_entries(init));
            assert(kept.last() == e);
        }
        assert forall|k: int| 0 <= k < es.len() && !is_staging(es[k]) implies kept.contains(
            #[trigger] es[k],
        ) by {
            if k < es.len() - 1 {
                assert(es[k] == init[k]);
                let w = choose|w: int| 0 <= w < kept_entries(init).len() && kept_entries(init)[w] == init[k];
                assert(kept[w] == es[k]);
            } else {
                assert(kept[kept.len() - 1] == es[k]);
            }
        }
    }
}

/// Atomicity: a finished ingestion that failed has in the store exactly
/// those of its records whose undo step failed (`left_in_store`, reported
/// as a failed rollback), so none at all when every undo succeeded; and its
/// staging directory is gone unless deleting it failed.
pub proof fn lemma_failed_ingest_leaves_nothing(tx: IngestTx)
    requires
        tx.wf(),
        tx.next() == IngestAction::Finish,
        tx.failure() is Some,
    ensures
        tx.live() == index_set(tx.orphans()),
        !tx.rollback_failed() ==> tx.live() == Set::<int>::empty(),
        !tx.cleanup_failed() ==> !tx.staged(),
{
    if !tx.rollback_failed() {
        assert(index_set(tx.orphans()) =~= Set::<int>::empty());
    }
}

/// A finished ingestion that succeeded has all of its records in the store.
pub proof fn lemma_successful_ingest_commits_all(tx: IngestTx)
    requires
        tx.wf(),
        tx.next() == IngestAction::Finish,
        tx.failure() is None,
    ensures
        tx.live() == below(tx.n() as int),
        !tx.rollback_failed(),
{
}

/// A document without sections yields exactly one record, whose title is
/// its parent title, the document's title.
pub proof fn lemma_fallback_single_record(doc: ParsedDoc, id: Seq<char>)
    requires
        doc.sections@.len() == 0,
    ensures
        record_count(doc) == 1,
        planned_record(doc, 0, id).title == planned_record(doc, 0, id).parent,
        planned_record(doc, 0, id).title == doc.title@,
{
}

} // verus!
