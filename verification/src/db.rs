//! Records of the settings database (keybinds, dictionary, corrections), the portable
//! dictionary file, and the rules that turn imported items into rows.
use crate::errors::is_err_with;
use crate::text::{chars_of, is_blank, slice_range, string_from_chars, trim, trim_bounds};
use vstd::prelude::*;

verus! {

pub struct KeybindRow {
    pub action: String,
    pub shortcut: String,
}

pub struct DictionaryEntry {
    pub id: Option<i64>,
    pub term: String,
    pub replacement: String,
    pub priority: i64,
    pub scope: String,
}

pub struct CorrectionEntry {
    pub id: Option<i64>,
    pub mishear: String,
    pub intended: String,
    pub priority: i64,
}

/// One row of a dictionary import/export file (no database id, portable across devices).
pub struct DictionaryExportItem {
    pub term: String,
    pub replacement: String,
    pub priority: i64,
    pub scope: String,
}

/// A dictionary export file.
pub struct DictionaryExportFile {
    pub format: String,
    pub version: u32,
    pub dictionary: Vec<DictionaryExportItem>,
}

/// What an import file may hold: a full export file, or just a list of items.
pub enum DictionaryImportRoot {
    File(DictionaryExportFile),
    List(Vec<DictionaryExportItem>),
}

impl DictionaryImportRoot {
    pub fn into_items(self) -> (r: Vec<DictionaryExportItem>)
        ensures
            r@ == match self {
                DictionaryImportRoot::File(f) => f.dictionary@,
                DictionaryImportRoot::List(v) => v@,
            },
    {
        match self {
            DictionaryImportRoot::File(f) => f.dictionary,
            DictionaryImportRoot::List(v) => v,
        }
    }
}

/// Priority of an imported item that names none.
pub fn default_dict_export_priority() -> (r: i64)
    ensures
        r == 10,
{
    10
}

/// Scope of an imported item that names none.
pub fn default_dict_export_scope() -> (r: String)
    ensures
        r@ == "word"@,
{
    "word".to_owned()
}

/// Version of an import file that names none.
pub fn default_dict_file_version() -> (r: u32)
    ensures
        r == 1,
{
    1
}

/// Keybinds seeded into an empty database: (action, shortcut).
pub const DEFAULT_KEYBINDS: [(&'static str, &'static str); 3] = [
    ("push_to_talk", "Control+Shift+Space"),
    ("toggle_open_mic", "Control+Shift+M"),
    ("stop_dictation", "Escape"),
];

/// Settings seeded into an empty settings table: (key, value).
pub const DEFAULT_SETTINGS: [(&'static str, &'static str); 10] = [
    ("engine", "whisper"),
    ("whisper_model", "base"),
    ("compute_type", "int8"),
    ("inference_host", "local"),
    ("remote_url", "ws://127.0.0.1:8765"),
    ("remote_token", ""),
    ("tone_preset", "standard"),
    ("vad_energy_threshold", "0.008"),
    ("chunk_ms", "400"),
    ("mock_transcription", "false"),
];

/// Settings inserted when missing on every start: (key, value).
pub const ADDED_SETTINGS: [(&'static str, &'static str); 9] = [
    ("whisper_device", "auto"),
    ("parakeet_model", "nvidia/parakeet-tdt-0.6b-v3"),
    ("input_device_name", ""),
    ("lazy_load_whisper", "false"),
    ("model_idle_unload_mins", "0"),
    ("instance_role", "dictation"),
    ("node_server_bind", "lan"),
    ("node_server_port", "8765"),
    ("node_server_token", ""),
];

/// An import item as stored: trimmed term, replacement (the term when blank), the item's
/// priority, and trimmed scope (`word` when blank).
pub struct ImportRow {
    pub term: String,
    pub replacement: String,
    pub priority: i64,
    pub scope: String,
}

/// The row an import item becomes, or `None` for a blank term.
pub open spec fn import_row_spec(item: DictionaryExportItem) -> Option<(Seq<char>, Seq<char>, i64, Seq<char>)> {
    let term = trim(item.term@);
    if term.len() == 0 {
        None
    } else {
        let rep = trim(item.replacement@);
        let scope = trim(item.scope@);
        Some(
            (
                term,
                if rep.len() == 0 {
                    term
                } else {
                    rep
                },
                item.priority,
                if scope.len() == 0 {
                    "word"@
                } else {
                    scope
                },
            ),
        )
    }
}

fn trimmed(s: &str) -> (r: String)
    ensures
        r@ == trim(s@),
{
    let v = chars_of(s);
    let (lo, hi) = trim_bounds(v.as_slice());
    string_from_chars(slice_range(v.as_slice(), lo, hi))
}

/// An imported row keeps the item's fields in place: the trimmed term as the term, the
/// trimmed replacement as the replacement (the term when the replacement is blank), the
/// item's priority, and the trimmed scope (`word` when blank); an item with a blank term
/// gives no row.
pub proof fn imported_row_keeps_fields(item: DictionaryExportItem)
    ensures
        import_row_spec(item) is None <==> trim(item.term@).len() == 0,
        import_row_spec(item) matches Some(row) ==> {
            &&& row.0 == trim(item.term@)
            &&& trim(item.replacement@).len() > 0 ==> row.1 == trim(item.replacement@)
            &&& trim(item.replacement@).len() == 0 ==> row.1 == trim(item.term@)
            &&& row.2 == item.priority
            &&& trim(item.scope@).len() > 0 ==> row.3 == trim(item.scope@)
            &&& trim(item.scope@).len() == 0 ==> row.3 == "word"@
        },
{
}

/// Normalises one import item (both merge and replace imports store these values).
pub fn import_row(item: &DictionaryExportItem) -> (r: Option<ImportRow>)
    ensures
        match r {
            None => import_row_spec(*item) is None,
            Some(row) => import_row_spec(*item) == Some(
                (row.term@, row.replacement@, row.priority, row.scope@),
            ),
        },
        r is None <==> trim(item.term@).len() == 0,
        r matches Some(row) ==> {
            &&& row.term@ == trim(item.term@)
            &&& trim(item.replacement@).len() > 0 ==> row.replacement@ == trim(item.replacement@)
            &&& trim(item.replacement@).len() == 0 ==> row.replacement@ == trim(item.term@)
            &&& row.priority == item.priority
            &&& trim(item.scope@).len() > 0 ==> row.scope@ == trim(item.scope@)
            &&& trim(item.scope@).len() == 0 ==> row.scope@ == "word"@
        },
{
    proof {
        imported_row_keeps_fields(*item);
    }
    let term = trimmed(item.term.as_str());
    if term.as_str().is_empty() {
        return None;
    }
    let rep = trimmed(item.replacement.as_str());
    let scope = trimmed(item.scope.as_str());
    let replacement = if rep.as_str().is_empty() {
        term.clone()
    } else {
        rep
    };
    let scope = if scope.as_str().is_empty() {
        "word".to_owned()
    } else {
        scope
    };
    Some(ImportRow { term, replacement, priority: item.priority, scope })
}

/// Number of items with a non-blank term (what a replacing import inserts).
pub open spec fn importable_count(items: Seq<DictionaryExportItem>) -> nat {
    items.filter(|e: DictionaryExportItem| trim(e.term@).len() > 0).len()
}

/// Rejects a file whose items all have blank terms; otherwise the number of rows a
/// replacing import inserts.
pub fn check_import_items(items: &[DictionaryExportItem]) -> (r: Result<usize, String>)
    ensures
        importable_count(items@) == 0 ==> is_err_with(
            r,
            "File contains no dictionary or correction entries."@,
        ),
        importable_count(items@) > 0 ==> r == Ok::<usize, String>(importable_count(items@) as usize),
{
    let ghost f = |e: DictionaryExportItem| trim(e.term@).len() > 0;
    let mut n: usize = 0;
    proof {
        reveal(Seq::filter);
        assert(items@.take(0).filter(f) =~= Seq::<DictionaryExportItem>::empty());
    }
    for i in 0..items.len()
        invariant
            f == (|e: DictionaryExportItem| trim(e.term@).len() > 0),
            n == items@.take(i as int).filter(f).len(),
            n <= i,
    {
        proof {
            reveal(Seq::filter);
            assert(items@.take(i + 1).drop_last() =~= items@.take(i as int));
        }
        if !is_blank(items[i].term.as_str()) {
            n = n + 1;
        }
    }
    assert(items@.take(items@.len() as int) =~= items@);
    if n == 0 {
        Err("File contains no dictionary or correction entries.".to_owned())
    } else {
        Ok(n)
    }
}

/// A counter of merge-import outcomes: (inserted, updated).
pub fn tally_merge(counts: (usize, usize), existing_id: Option<i64>) -> (r: (usize, usize))
    requires
        counts.0 < usize::MAX,
        counts.1 < usize::MAX,
    ensures
        existing_id is Some ==> r == (counts.0, (counts.1 + 1) as usize),
        existing_id is None ==> r == ((counts.0 + 1) as usize, counts.1),
{
    match existing_id {
        Some(_) => (counts.0, counts.1 + 1),
        None => (counts.0 + 1, counts.1),
    }
}

/// The export file for the dictionary rows: format `yapper-dictionary`, version 2, and each
/// row's term, replacement, priority and scope in order (database ids are left out).
pub fn export_file(rows: Vec<DictionaryEntry>) -> (r: DictionaryExportFile)
    ensures
        r.format@ == "yapper-dictionary"@,
        r.version == 2,
        r.dictionary@.len() == rows@.len(),
        forall|i: int|
            0 <= i < rows@.len() ==> {
                let e = #[trigger] rows@[i];
                let x = r.dictionary@[i];
                x.term == e.term && x.replacement == e.replacement && x.priority == e.priority
                    && x.scope == e.scope
            },
{
    let mut items: Vec<DictionaryExportItem> = Vec::new();
    let mut rows = rows;
    let ghost orig = rows@;
    assert(orig.skip(0) =~= orig);
    while rows.len() > 0
        invariant
            items@.len() <= orig.len(),
            rows@ == orig.skip(items@.len() as int),
            forall|i: int|
                0 <= i < items@.len() ==> {
                    let e = #[trigger] orig[i];
                    let x = items@[i];
                    x.term == e.term && x.replacement == e.replacement && x.priority == e.priority
                        && x.scope == e.scope
                },
        decreases rows@.len(),
    {
        let ghost k = items@.len() as int;
        let e = rows.remove(0);
        assert(orig[k] == e);
        assert(orig.skip(k).remove(0) =~= orig.skip(k + 1));
        items.push(
            DictionaryExportItem {
                term: e.term,
                replacement: e.replacement,
                priority: e.priority,
                scope: e.scope,
            },
        );
    }
    DictionaryExportFile { format: "yapper-dictionary".to_owned(), version: 2, dictionary: items }
}

} // verus!

