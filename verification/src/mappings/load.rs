//! Loading the rule table from a scan of the mapping directory.
//!
//! The scan itself — walking the tree, reading each regular file — is I/O and
//! happens outside the library; it hands over one `ScanEntry` per regular
//! file found, holding the file's path relative to the root and its content,
//! or `None` where the file could not be read. Everything from there on is
//! verified: which files qualify, how a path becomes a topic key, how each
//! document becomes a rule, and how many entries were skipped.

use vstd::prelude::*;

use super::mapping::{Mapping, MappingModel, spec_mapping_of};
use super::{spec_table_get, spec_table_of, MappingConfig};
use crate::yaml::{parse_yaml_document, yaml_document, YamlNode};

verus! {

/// Mathematical model of one scanned file.
pub ghost struct EntryModel {
    /// Path relative to the mapping root.
    pub rel_path: Seq<char>,
    /// The file's text, or `None` where it could not be read.
    pub content: Option<Seq<char>>,
}

/// One regular file found under the mapping root: its path relative to the
/// root (separated by the topic-hierarchy separator `/`), and its content,
/// or `None` where reading it failed.
pub struct ScanEntry {
    pub rel_path: String,
    pub content: Option<String>,
}

impl View for ScanEntry {
    type V = EntryModel;

    open spec fn view(&self) -> EntryModel {
        EntryModel {
            rel_path: self.rel_path@,
            content: match self.content {
                Some(c) => Some(c@),
                None => None,
            },
        }
    }
}

/// What a scan of the mapping root found: nothing at all (the root is
/// missing, not a directory, or could not be enumerated), or the regular
/// files under it.
pub enum DirScan {
    Missing,
    Found(Vec<ScanEntry>),
}

/// The outcome of a load pass: the table built, and how many qualifying
/// entries were skipped over failures.
pub ghost struct LoadModel {
    pub table: Seq<(Seq<char>, MappingModel)>,
    pub skipped: nat,
}

/// The recognized extension of a rule file.
pub open spec fn spec_yaml_ext() -> Seq<char> {
    seq!['.', 'y', 'a', 'm', 'l']
}

/// A relative path with a leading topic separator stripped.
pub open spec fn spec_normalize_rel(p: Seq<char>) -> Seq<char> {
    if p.len() > 0 && p[0] == '/' {
        p.subrange(1, p.len() as int)
    } else {
        p
    }
}

/// Whether a normalized relative path names a rule file: it carries the
/// recognized extension behind a non-empty final segment.
pub open spec fn is_mapping_path(p: Seq<char>) -> bool {
    &&& p.len() > 5
    &&& p.subrange(p.len() - 5, p.len() as int) == spec_yaml_ext()
    &&& p[p.len() - 6] != '/'
}

/// The topic key of a normalized rule-file path: the path with the extension
/// stripped.
pub open spec fn spec_topic_key(p: Seq<char>) -> Seq<char> {
    p.subrange(0, p.len() - 5)
}

/// How one scanned file changes a load pass in progress: files without the
/// recognized extension are ignored; an unreadable or unparseable qualifying
/// file is skipped and counted; a parsed file contributes its rule under its
/// topic key, the first file to claim a key winning.
pub open spec fn spec_load_step(acc: LoadModel, e: EntryModel) -> LoadModel {
    let rel = spec_normalize_rel(e.rel_path);
    if !is_mapping_path(rel) {
        acc
    } else {
        match e.content {
            None => LoadModel { table: acc.table, skipped: acc.skipped + 1 },
            Some(text) => match yaml_document(text) {
                None => LoadModel { table: acc.table, skipped: acc.skipped + 1 },
                Some(doc) => {
                    let key = spec_topic_key(rel);
                    if spec_table_get(acc.table, key) is Some {
                        acc
                    } else {
                        LoadModel {
                            table: acc.table.push((key, spec_mapping_of(doc))),
                            skipped: acc.skipped,
                        }
                    }
                },
            },
        }
    }
}

/// The load pass over a whole scan, in scan order.
pub open spec fn spec_load(entries: Seq<EntryModel>) -> LoadModel
    decreases entries.len(),
{
    if entries.len() == 0 {
        LoadModel { table: Seq::empty(), skipped: 0 }
    } else {
        spec_load_step(spec_load(entries.drop_last()), entries.last())
    }
}

/// Whether a scanned file carries the recognized extension at all.
pub open spec fn entry_qualifies(e: EntryModel) -> bool {
    is_mapping_path(spec_normalize_rel(e.rel_path))
}

/// A qualifying file that is readable and parses to a document.
pub open spec fn entry_is_well_formed(e: EntryModel) -> bool {
    entry_qualifies(e) && (e.content matches Some(text) && yaml_document(text) is Some)
}

/// A qualifying file that is unreadable or does not parse.
pub open spec fn entry_is_malformed(e: EntryModel) -> bool {
    entry_qualifies(e) && !(e.content matches Some(text) && yaml_document(text) is Some)
}

/// The topic key a scanned file loads under.
pub open spec fn entry_key(e: EntryModel) -> Seq<char> {
    spec_topic_key(spec_normalize_rel(e.rel_path))
}

/// How many entries of the scan are well-formed.
pub open spec fn spec_count_well_formed(entries: Seq<EntryModel>) -> nat
    decreases entries.len(),
{
    if entries.len() == 0 {
        0
    } else {
        spec_count_well_formed(entries.drop_last()) + if entry_is_well_formed(entries.last()) {
            1nat
        } else {
            0
        }
    }
}

/// How many entries of the scan are malformed.
pub open spec fn spec_count_malformed(entries: Seq<EntryModel>) -> nat
    decreases entries.len(),
{
    if entries.len() == 0 {
        0
    } else {
        spec_count_malformed(entries.drop_last()) + if entry_is_malformed(entries.last()) {
            1nat
        } else {
            0
        }
    }
}

/// Appending an entry to a table makes a key findable exactly when the table
/// already held it or the new entry carries it.
proof fn lemma_table_get_push(
    t: Seq<(Seq<char>, MappingModel)>,
    p: (Seq<char>, MappingModel),
    k: Seq<char>,
)
    ensures
        spec_table_get(t.push(p), k) is Some <==> (spec_table_get(t, k) is Some || p.0 == k),
    decreases t.len(),
{
    if t.len() == 0 {
        assert(t.push(p)[0] == p);
        if p.0 != k {
            assert(t.push(p).drop_first() =~= Seq::<(Seq<char>, MappingModel)>::empty());
        }
    } else {
        assert(t.push(p)[0] == t[0]);
        assert(t.push(p).drop_first() =~= t.drop_first().push(p));
        lemma_table_get_push(t.drop_first(), p, k);
    }
}

/// Loading is insensitive to interleaving: a scan of qualifying rule files —
/// well-formed ones with pairwise distinct topic keys, malformed ones
/// anywhere between them — yields a table with exactly one entry per
/// well-formed file and a skipped count of exactly the malformed ones; the
/// table holds exactly the well-formed files' keys.
pub proof fn lemma_load_counts(entries: Seq<EntryModel>)
    requires
        forall|i: int| 0 <= i < entries.len() ==> #[trigger] entry_qualifies(entries[i]),
        forall|i: int, j: int|
            0 <= i < j < entries.len() && entry_is_well_formed(#[trigger] entries[i])
                && entry_is_well_formed(#[trigger] entries[j]) ==> entry_key(entries[i])
                != entry_key(entries[j]),
    ensures
        spec_load(entries).table.len() == spec_count_well_formed(entries),
        spec_load(entries).skipped == spec_count_malformed(entries),
        forall|k: Seq<char>|
            spec_table_get(spec_load(entries).table, k) is Some <==> exists|i: int|
                0 <= i < entries.len() && entry_is_well_formed(#[trigger] entries[i])
                    && entry_key(entries[i]) == k,
    decreases entries.len(),
{
    if entries.len() == 0 {
    } else {
        let prefix = entries.drop_last();
        let e = entries.last();
        assert(forall|i: int| 0 <= i < prefix.len() ==> prefix[i] == entries[i]);
        lemma_load_counts(prefix);
        let acc = spec_load(prefix);
        if entry_is_well_formed(e) {
            if spec_table_get(acc.table, entry_key(e)) is Some {
                let i = choose|i: int|
                    0 <= i < prefix.len() && entry_is_well_formed(#[trigger] prefix[i])
                        && entry_key(prefix[i]) == entry_key(e);
                assert(entries[i] == prefix[i]);
                assert(entries[entries.len() - 1] == e);
                assert(false);
            }
            let text = choose|text: Seq<char>| e.content == Some(text);
            let doc = choose|doc: YamlNode| yaml_document(text) == Some(doc);
            let p = (entry_key(e), spec_mapping_of(doc));
            assert(spec_load(entries).table == acc.table.push(p));
            assert forall|k: Seq<char>|
                spec_table_get(spec_load(entries).table, k) is Some <==> exists|i: int|
                    0 <= i < entries.len() && entry_is_well_formed(#[trigger] entries[i])
                        && entry_key(entries[i]) == k by {
                lemma_table_get_push(acc.table, p, k);
                if spec_table_get(spec_load(entries).table, k) is Some {
                    if spec_table_get(acc.table, k) is Some {
                        let i = choose|i: int|
                            0 <= i < prefix.len() && entry_is_well_formed(#[trigger] prefix[i])
                                && entry_key(prefix[i]) == k;
                        assert(entries[i] == prefix[i]);
                        assert(entry_is_well_formed(entries[i]) && entry_key(entries[i]) == k);
                    } else {
                        assert(entry_is_well_formed(entries[entries.len() - 1])
                            && entry_key(entries[entries.len() - 1]) == k);
                    }
                }
                if exists|i: int|
                    0 <= i < entries.len() && entry_is_well_formed(#[trigger] entries[i])
                        && entry_key(entries[i]) == k {
                    let i = choose|i: int|
                        0 <= i < entries.len() && entry_is_well_formed(#[trigger] entries[i])
                            && entry_key(entries[i]) == k;
                    if i < entries.len() - 1 {
                        assert(prefix[i] == entries[i]);
                        assert(spec_table_get(acc.table, k) is Some);
                    } else {
                        assert(p.0 == k);
                    }
                }
            }
        } else {
            assert(entry_is_malformed(e));
            assert(spec_load(entries).table == acc.table);
            assert forall|k: Seq<char>|
                spec_table_get(spec_load(entries).table, k) is Some <==> exists|i: int|
                    0 <= i < entries.len() && entry_is_well_formed(#[trigger] entries[i])
                        && entry_key(entries[i]) == k by {
                if spec_table_get(acc.table, k) is Some {
                    let i = choose|i: int|
                        0 <= i < prefix.len() && entry_is_well_formed(#[trigger] prefix[i])
                            && entry_key(prefix[i]) == k;
                    assert(entries[i] == prefix[i]);
                    assert(entry_is_well_formed(entries[i]) && entry_key(entries[i]) == k);
                }
                if exists|i: int|
                    0 <= i < entries.len() && entry_is_well_formed(#[trigger] entries[i])
                        && entry_key(entries[i]) == k {
                    let i = choose|i: int|
                        0 <= i < entries.len() && entry_is_well_formed(#[trigger] entries[i])
                            && entry_key(entries[i]) == k;
                    assert(i < entries.len() - 1);
                    assert(prefix[i] == entries[i]);
                    assert(spec_table_get(acc.table, k) is Some);
                }
            }
        }
    }
}

/// A relative path with a leading topic separator stripped.
fn normalized<'a>(rel: &'a str) -> (r: &'a str)
    ensures
        r@ == spec_normalize_rel(rel@),
{
    let n = rel.unicode_len();
    if n > 0 && rel.get_char(0) == '/' {
        rel.substring_char(1, n)
    } else {
        rel
    }
}

/// Whether a normalized relative path names a rule file.
fn path_qualifies(rel: &str) -> (r: bool)
    ensures
        r == is_mapping_path(rel@),
{
    let n = rel.unicode_len();
    if n <= 5 {
        return false;
    }
    if rel.get_char(n - 6) == '/' {
        return false;
    }
    let ok = rel.get_char(n - 5) == '.' && rel.get_char(n - 4) == 'y' && rel.get_char(n - 3)
        == 'a' && rel.get_char(n - 2) == 'm' && rel.get_char(n - 1) == 'l';
    proof {
        let ext = rel@.subrange(n - 5, n as int);
        assert(ext.len() == 5);
        assert(ext[0] == rel@[n - 5]);
        assert(ext[1] == rel@[n - 4]);
        assert(ext[2] == rel@[n - 3]);
        assert(ext[3] == rel@[n - 2]);
        assert(ext[4] == rel@[n - 1]);
        if ok {
            assert(ext =~= spec_yaml_ext());
        }
    }
    ok
}

/// The topic key of a normalized rule-file path.
fn topic_key(rel: &str) -> (r: String)
    requires
        is_mapping_path(rel@),
    ensures
        r@ == spec_topic_key(rel@),
{
    let n = rel.unicode_len();
    rel.substring_char(0, n - 5).to_owned()
}

/// Whether the table under construction already holds `key`.
fn table_contains(table: &Vec<(String, Mapping)>, key: &String) -> (r: bool)
    ensures
        r == (spec_table_get(spec_table_of(table@), key@) is Some),
{
    let ghost model = spec_table_of(table@);
    let mut i: usize = 0;
    proof {
        assert(model.skip(0) =~= model);
    }
    while i < table.len()
        invariant
            model == spec_table_of(table@),
            model.len() == table@.len(),
            forall|j: int| 0 <= j < model.len()
                ==> #[trigger] model[j] == (table@[j].0@, table@[j].1@),
            i <= table@.len(),
            spec_table_get(model, key@) == spec_table_get(model.skip(i as int), key@),
        decreases table@.len() - i,
    {
        proof {
            assert(model.skip(i as int)[0] == model[i as int]);
            assert(model.skip(i as int).drop_first() =~= model.skip(i as int + 1));
        }
        if table[i].0.eq(key) {
            return true;
        }
        i = i + 1;
    }
    false
}

impl MappingConfig {
    /// Rebuilds the whole table from a fresh scan of the mapping directory,
    /// atomically from the caller's point of view: the old table is replaced
    /// wholesale. A missing or unreadable root yields an empty table — a
    /// recoverable condition, not an error. Returns how many qualifying
    /// entries were skipped over per-entry failures.
    pub fn reload(&mut self, scan: DirScan) -> (skipped: usize)
        ensures
            final(self).spec_path() == old(self).spec_path(),
            match scan {
                DirScan::Missing => final(self)@ == Seq::<(Seq<char>, MappingModel)>::empty()
                    && skipped == 0,
                DirScan::Found(entries) => {
                    let lm = spec_load(entries@.map_values(|e: ScanEntry| e@));
                    final(self)@ == lm.table && skipped as nat == lm.skipped
                },
            },
    {
        let entries = match scan {
            DirScan::Missing => {
                self.mappings = Vec::new();
                proof {
                    assert(self@ =~= Seq::<(Seq<char>, MappingModel)>::empty());
                }
                return 0;
            },
            DirScan::Found(entries) => entries,
        };
        let ghost models = entries@.map_values(|e: ScanEntry| e@);
        let mut table: Vec<(String, Mapping)> = Vec::new();
        let mut skipped: usize = 0;
        let mut i: usize = 0;
        proof {
            assert(models.take(0) =~= Seq::<EntryModel>::empty());
            assert(spec_table_of(table@) =~= Seq::<(Seq<char>, MappingModel)>::empty());
        }
        while i < entries.len()
            invariant
                models == entries@.map_values(|e: ScanEntry| e@),
                models.len() == entries@.len(),
                i <= entries@.len(),
                skipped <= i,
                spec_load(models.take(i as int)) == (LoadModel {
                    table: spec_table_of(table@),
                    skipped: skipped as nat,
                }),
            decreases entries@.len() - i,
        {
            proof {
                assert(models.take(i as int + 1).drop_last() =~= models.take(i as int));
                assert(models.take(i as int + 1).last() == models[i as int]);
                assert(models[i as int] == entries@[i as int]@);
            }
            let entry = &entries[i];
            let rel = normalized(entry.rel_path.as_str());
            if path_qualifies(rel) {
                match &entry.content {
                    None => {
                        skipped = skipped + 1;
                    },
                    Some(text) => match parse_yaml_document(text.as_str()) {
                        None => {
                            skipped = skipped + 1;
                        },
                        Some(doc) => {
                            let key = topic_key(rel);
                            if !table_contains(&table, &key) {
                                match Mapping::from_yaml(&doc) {
                                    Ok(m) => {
                                        let ghost mm = m@;
                                        table.push((key, m));
                                        proof {
                                            assert(spec_table_of(table@) =~= spec_load(
                                                models.take(i as int),
                                            ).table.push((spec_topic_key(rel@), mm)));
                                        }
                                    },
                                    Err(_) => {
                                        proof {
                                            assert(false);
                                        }
                                    },
                                }
                            }
                        },
                    },
                }
            }
            i = i + 1;
        }
        proof {
            assert(models.take(entries@.len() as int) =~= models);
        }
        self.mappings = table;
        skipped
    }
}

} // verus!
