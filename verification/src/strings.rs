//! Key-value strings with computed entries and two layers of persistence.
//!
//! Multi-line values are kept in one Markdown file each, all others together in one JSON file.
//! Both layers are read on load, and a Markdown file wins over the JSON file. Computed strings
//! (`$`-prefixed) are readonly for users and live in memory only.
use std::collections::BTreeMap;
use vstd::prelude::*;
use vstd::slice::slice_subrange;
use crate::names::{self, NameMap};
use crate::text;

verus! {

/// What [`serde_json::from_str`] makes of a text as an object whose values are strings: its
/// entries in ascending order of their keys, or nothing if the text is no such object.
pub uninterp spec fn json_entries(text: Seq<char>) -> Option<Seq<(Seq<char>, Seq<char>)>>;

/// What [`serde_json::to_string`] writes for a table of strings, if it can write it.
pub uninterp spec fn json_text(entries: Seq<(Seq<char>, Seq<char>)>) -> Option<Seq<char>>;

/// Calls [`serde_json::from_str`] for an ordered map of strings.
///
/// Claimed of it: which entries come back, and whether any do, depends on the text alone; and
/// the map hands its entries out in ascending order of their keys, each key once.
#[verifier::external_body]
fn read_object(text: &str) -> (entries: Option<Vec<(String, String)>>)
    ensures
        match entries {
            Some(entries) => json_entries(text@) == Some(names::entry_views(entries@))
                && names::ascending(names::entry_views(entries@)),
            None => json_entries(text@) is None,
        },
{
    match serde_json::from_str::<BTreeMap<String, String>>(text) {
        Ok(table) => Some(table.into_iter().collect()),
        Err(_) => None,
    }
}

/// Calls [`serde_json::to_string`] on an ordered map of strings.
///
/// Claimed of it: the text depends on the entries alone; and a table in ascending order is
/// always written, in a text that [`serde_json::from_str`] reads the same entries from.
#[verifier::external_body]
fn write_object(entries: &Vec<(String, String)>) -> (text: Option<String>)
    ensures
        match text {
            Some(text) => json_text(names::entry_views(entries@)) == Some(text@),
            None => json_text(names::entry_views(entries@)) is None,
        },
        names::ascending(names::entry_views(entries@)) ==> (text matches Some(text)
            && json_entries(text@) == Some(names::entry_views(entries@))),
{
    let table: BTreeMap<&String, &String> = entries.iter().map(|entry| (&entry.0, &entry.1)).collect();
    serde_json::to_string(&table).ok()
}

/// Reads a table of strings from a JSON object; nothing if the text is no such object.
pub fn parse_table(text: &str) -> (table: Option<NameMap<String>>)
    ensures
        match table {
            Some(table) => json_entries(text@) == Some(table@),
            None => json_entries(text@) is None,
        },
{
    let entries = match read_object(text) {
        Some(entries) => entries,
        None => {
            return None;
        },
    };
    let ghost read = names::entry_views(entries@);
    let mut table: NameMap<String> = NameMap::new();
    let mut i: usize = 0;
    while i < entries.len()
        invariant
            i <= entries@.len(),
            read == names::entry_views(entries@),
            names::ascending(read),
            table@ == read.take(i as int),
        decreases entries@.len() - i,
    {
        proof {
            lemma_append(read, i as int);
        }
        table.insert(entries[i].0.clone(), entries[i].1.clone());
        i = i + 1;
    }
    assert(read.take(i as int) =~= read);
    Some(table)
}

/// Writes a table of strings as a JSON object, from which the same table can be read again.
pub fn table_text(table: &NameMap<String>) -> (text: String)
    ensures
        json_text(table@) == Some(text@),
        json_entries(text@) == Some(table@),
{
    proof {
        use_type_invariant(table);
    }
    let mut entries: Vec<(String, String)> = Vec::new();
    let mut i: usize = 0;
    while i < table.len()
        invariant
            i <= table@.len(),
            names::entry_views(entries@) == table@.take(i as int),
        decreases table@.len() - i,
    {
        let ghost before = entries@;
        entries.push((table.name_at(i).to_owned(), table.value_at(i).clone()));
        assert(names::entry_views(entries@) =~= names::entry_views(before).push(table@[i as int]));
        assert(table@.take(i + 1) =~= table@.take(i as int).push(table@[i as int]));
        i = i + 1;
    }
    assert(table@.take(i as int) =~= table@);
    match write_object(&entries) {
        Some(text) => text,
        None => "{}".to_owned(),
    }
}

/// Entries keyed by name, in ascending order.
pub type Entries = Seq<(Seq<char>, Seq<char>)>;

/// Why a string is not changed.
#[derive(Debug, Clone, Copy, PartialEq, Eq, Structural)]
pub enum StringStoreError {
    /// Computed strings are readonly.
    ComputedReadonly,
    /// A key holds a character that is not accepted, or none.
    InvalidKey,
}

/// Status and error text of a reply.
#[derive(Debug, Clone, Copy, PartialEq, Eq)]
pub struct StringReply {
    /// HTTP status.
    pub status: u16,
    /// Error text, absent on success.
    pub error: Option<&'static str>,
}

impl StringReply {
    /// Whether this is a refusal with a status and an error text.
    pub open spec fn refuses(self, status: u16, error: Seq<char>) -> bool {
        self.status == status && (self.error matches Some(text) && text@ == error)
    }

    /// Whether this reports success.
    pub open spec fn accepts(self) -> bool {
        self.status == 200 && self.error is None
    }

    /// Answers a change by a user.
    pub fn of(result: Result<(), StringStoreError>) -> (reply: StringReply)
        ensures
            match result {
                Ok(()) => reply.accepts(),
                Err(StringStoreError::ComputedReadonly) => reply.refuses(
                    403,
                    "computed strings are readonly"@,
                ),
                Err(StringStoreError::InvalidKey) => reply.refuses(400, "invalid key"@),
            },
    {
        match result {
            Ok(()) => StringReply { status: 200, error: None },
            Err(StringStoreError::ComputedReadonly) => StringReply {
                status: 403,
                error: Some("computed strings are readonly"),
            },
            Err(StringStoreError::InvalidKey) => StringReply {
                status: 400,
                error: Some("invalid key"),
            },
        }
    }
}

/// Whether a key is that of a computed string.
pub open spec fn is_computed(key: Seq<char>) -> bool {
    key.len() > 0 && key[0] == '$'
}

/// Whether a character may stand in the key of a user string.
pub open spec fn is_key_char(c: char) -> bool {
    ('a' <= c <= 'z') || ('A' <= c <= 'Z') || ('0' <= c <= '9') || c == '-' || c == '_'
}

/// Whether a key names a user string.
pub open spec fn valid_key(key: Seq<char>) -> bool {
    key.len() > 0 && forall|i: int| 0 <= i < key.len() ==> is_key_char(#[trigger] key[i])
}

/// Whether a value spans lines, not counting white space at its end.
pub open spec fn multiline(value: Seq<char>) -> bool {
    text::trimmed_end(value).contains('\n')
}

fn begins_computed(key: &str) -> (answer: bool)
    ensures
        answer == is_computed(key@),
{
    let chars = text::chars_of(key);
    chars.len() > 0 && chars[0] == '$'
}

/// Key must be alphanumeric, hyphens, underscores.
pub fn is_valid_key(key: &str) -> (valid: bool)
    ensures
        valid == valid_key(key@),
{
    let chars = text::chars_of(key);
    if chars.len() == 0 {
        return false;
    }
    let mut i: usize = 0;
    while i < chars.len()
        invariant
            i <= chars@.len(),
            chars@ == key@,
            forall|k: int| 0 <= k < i ==> is_key_char(#[trigger] key@[k]),
        decreases chars@.len() - i,
    {
        let c: char = chars[i];
        let accepted = ('a' <= c && c <= 'z') || ('A' <= c && c <= 'Z') || ('0' <= c && c <= '9')
            || c == '-' || c == '_';
        if !accepted {
            assert(!is_key_char(key@[i as int]));
            return false;
        }
        i = i + 1;
    }
    true
}

/// A value is multi-line if it contains a newline after trimming trailing white space.
pub fn is_multiline(value: &str) -> (answer: bool)
    ensures
        answer == multiline(value@),
{
    let trimmed = text::trim_end(value);
    let chars = text::chars_of(trimmed.as_str());
    let mut i: usize = 0;
    while i < chars.len()
        invariant
            i <= chars@.len(),
            chars@ == text::trimmed_end(value@),
            forall|k: int| 0 <= k < i ==> chars@[k] != '\n',
        decreases chars@.len() - i,
    {
        if chars[i] == '\n' {
            assert(chars@.contains(chars@[i as int]));
            return true;
        }
        i = i + 1;
    }
    false
}

/// The key whose value a file of the Markdown layer holds, if it belongs to that layer.
pub open spec fn file_key(name: Seq<char>) -> Option<Seq<char>> {
    let stem = name.take(name.len() - 3);
    if name.len() >= 3 && name.skip(name.len() - 3) == ".md"@ && valid_key(stem) {
        Some(stem)
    } else {
        None
    }
}

/// Tells the key whose value a file holds; nothing for a file that holds none.
pub fn markdown_key(file_name: &str) -> (key: Option<String>)
    ensures
        match key {
            Some(key) => file_key(file_name@) == Some(key@),
            None => file_key(file_name@) is None,
        },
{
    proof {
        reveal_strlit(".md");
    }
    let chars = text::chars_of(file_name);
    let ending = text::chars_of(".md");
    if chars.len() < 3 {
        return None;
    }
    let at: usize = chars.len() - 3;
    if !text::same_chars(slice_subrange(chars.as_slice(), at, chars.len()), ending.as_slice()) {
        assert(chars@.subrange(at as int, chars@.len() as int) =~= chars@.skip(at as int));
        return None;
    }
    assert(chars@.subrange(at as int, chars@.len() as int) =~= chars@.skip(at as int));
    assert(chars@.subrange(0, at as int) =~= chars@.take(at as int));
    let stem = text::string_of(slice_subrange(chars.as_slice(), 0, at));
    if is_valid_key(stem.as_str()) {
        Some(stem)
    } else {
        None
    }
}

/// Names the file that holds the value under a key, which is found under that key again.
pub fn markdown_file(key: &str) -> (file_name: String)
    ensures
        file_name@ == key@ + ".md"@,
        valid_key(key@) ==> file_key(file_name@) == Some(key@),
{
    proof {
        reveal_strlit(".md");
        let name = key@ + ".md"@;
        assert(name.skip(name.len() - 3) =~= ".md"@);
        assert(name.take(name.len() - 3) =~= key@);
    }
    text::join(key, ".md")
}

/// The two layers as they stand on disk.
#[derive(Debug, PartialEq, Eq)]
pub struct DiskImage {
    /// Entries of the JSON file.
    pub json: NameMap<String>,
    /// Contents of the Markdown files, keyed by name without the ending.
    pub files: NameMap<String>,
}

/// What stands on disk.
pub struct DiskModel {
    pub json: Entries,
    pub files: Entries,
}

impl View for DiskImage {
    type V = DiskModel;

    open spec fn view(&self) -> DiskModel {
        DiskModel { json: self.json@, files: self.files@ }
    }
}

/// Entries with the first `count` of others laid over them.
pub open spec fn overlaid(base: Entries, over: Entries, count: int) -> Entries
    decreases count,
{
    if count <= 0 {
        base
    } else {
        names::with_entry(overlaid(base, over, count - 1), over[count - 1].0, over[count - 1].1)
    }
}

/// Entries with those of the first `count` others laid over them whose names are valid keys.
pub open spec fn overlaid_valid(base: Entries, over: Entries, count: int) -> Entries
    decreases count,
{
    if count <= 0 {
        base
    } else {
        let below = overlaid_valid(base, over, count - 1);
        if valid_key(over[count - 1].0) {
            names::with_entry(below, over[count - 1].0, over[count - 1].1)
        } else {
            below
        }
    }
}

proof fn lemma_overlaid(base: Entries, over: Entries, count: int, name: Seq<char>)
    requires
        names::ascending(base),
        names::ascending(over),
        0 <= count <= over.len(),
    ensures
        names::ascending(overlaid(base, over, count)),
        names::lookup(overlaid(base, over, count), name) == match names::lookup(
            over.take(count),
            name,
        ) {
            Some(value) => Some(value),
            None => names::lookup(base, name),
        },
    decreases count,
{
    let head = over.take(count);
    lemma_take_ascends(over, count);
    names::lemma_lookup(head, name);
    if count > 0 {
        let (last, value) = over[count - 1];
        let below = overlaid(base, over, count - 1);
        lemma_overlaid(base, over, count - 1, name);
        lemma_overlaid(base, over, count - 1, last);
        names::lemma_with_entry_ascending(below, last, value);
        names::law_reads_follow_writes(below, last, value, name);
        lemma_take_ascends(over, count - 1);
        let shorter = over.take(count - 1);
        names::lemma_lookup(shorter, name);
        assert(head[count - 1] == over[count - 1]);
        assert forall|i: int| 0 <= i < shorter.len() implies shorter[i] == head[i] by {}
        if name != last && names::lookup(head, name) is Some {
            let i = choose|i: int| 0 <= i < head.len() && (#[trigger] head[i]).0 == name;
            assert(shorter[i].0 == name);
        }
        if names::lookup(shorter, name) is Some {
            let i = choose|i: int| 0 <= i < shorter.len() && (#[trigger] shorter[i]).0 == name;
            assert(head[i].0 == name);
        }
    } else {
        assert(head =~= Seq::empty());
    }
}

proof fn lemma_take_ascends(entries: Entries, count: int)
    requires
        names::ascending(entries),
        0 <= count <= entries.len(),
    ensures
        names::ascending(entries.take(count)),
{
    let head = entries.take(count);
    assert forall|i: int, j: int| 0 <= i < j < head.len() implies names::precedes(
        #[trigger] head[i].0,
        #[trigger] head[j].0,
    ) by {
        assert(names::precedes(entries[i].0, entries[j].0));
    }
}

proof fn lemma_overlaid_valid(base: Entries, over: Entries, count: int, name: Seq<char>)
    requires
        names::ascending(base),
        names::ascending(over),
        0 <= count <= over.len(),
    ensures
        names::ascending(overlaid_valid(base, over, count)),
        names::lookup(overlaid_valid(base, over, count), name) == match names::lookup(
            over.take(count),
            name,
        ) {
            Some(value) => if valid_key(name) {
                Some(value)
            } else {
                names::lookup(base, name)
            },
            None => names::lookup(base, name),
        },
    decreases count,
{
    let head = over.take(count);
    lemma_take_ascends(over, count);
    names::lemma_lookup(head, name);
    if count > 0 {
        let (last, value) = over[count - 1];
        let below = overlaid_valid(base, over, count - 1);
        lemma_overlaid_valid(base, over, count - 1, name);
        if valid_key(last) {
            names::lemma_with_entry_ascending(below, last, value);
            names::law_reads_follow_writes(below, last, value, name);
        }
        lemma_take_ascends(over, count - 1);
        let shorter = over.take(count - 1);
        names::lemma_lookup(shorter, name);
        assert(head[count - 1] == over[count - 1]);
        assert forall|i: int| 0 <= i < shorter.len() implies shorter[i] == head[i] by {}
        if name != last && names::lookup(head, name) is Some {
            let i = choose|i: int| 0 <= i < head.len() && (#[trigger] head[i]).0 == name;
            assert(shorter[i].0 == name);
        }
        if names::lookup(shorter, name) is Some {
            let i = choose|i: int| 0 <= i < shorter.len() && (#[trigger] shorter[i]).0 == name;
            assert(head[i].0 == name);
        }
    } else {
        assert(head =~= Seq::empty());
    }
}

impl DiskModel {
    /// Both layers are in order, as what is read into them always is.
    pub open spec fn well_formed(self) -> bool {
        names::ascending(self.json) && names::ascending(self.files)
    }

    /// What is loaded: the JSON file, with every validly named Markdown file laid over it.
    pub open spec fn loaded(self) -> Entries {
        overlaid_valid(self.json, self.files, self.files.len() as int)
    }

    /// The layers after a string is set.
    pub open spec fn stored(self, key: Seq<char>, value: Seq<char>) -> DiskModel {
        if multiline(value) {
            DiskModel {
                json: names::without_entry(self.json, key),
                files: names::with_entry(self.files, key, value),
            }
        } else {
            DiskModel {
                json: names::with_entry(self.json, key, value),
                files: names::without_entry(self.files, key),
            }
        }
    }

    /// The layers after a string is deleted.
    pub open spec fn erased(self, key: Seq<char>) -> DiskModel {
        DiskModel {
            json: names::without_entry(self.json, key),
            files: names::without_entry(self.files, key),
        }
    }
}

impl DiskImage {
    /// An empty disk.
    pub fn new() -> (disk: DiskImage)
        ensures
            disk@ == (DiskModel { json: Seq::empty(), files: Seq::empty() }),
    {
        DiskImage { json: NameMap::new(), files: NameMap::new() }
    }

    /// Takes both layers in as a load finds them. A JSON file that cannot be read as a table of
    /// strings is refused.
    pub fn read(json: Option<&str>, files: NameMap<String>) -> (disk: Option<DiskImage>)
        ensures
            match disk {
                Some(disk) => disk@.files == files@ && match json {
                    Some(text) => json_entries(text@) == Some(disk@.json),
                    None => disk@.json == Seq::<(Seq<char>, Seq<char>)>::empty(),
                },
                None => json matches Some(text) && json_entries(text@) is None,
            },
    {
        match json {
            None => Some(DiskImage { json: NameMap::new(), files }),
            Some(text) => match parse_table(text) {
                Some(table) => Some(DiskImage { json: table, files }),
                None => None,
            },
        }
    }

    /// Takes both layers in as a change finds them. A JSON file that cannot be read as a table of
    /// strings counts as empty.
    pub fn read_for_change(json: Option<&str>, files: NameMap<String>) -> (disk: DiskImage)
        ensures
            disk@.files == files@,
            disk@.json == match json {
                Some(text) => match json_entries(text@) {
                    Some(entries) => entries,
                    None => Seq::empty(),
                },
                None => Seq::empty(),
            },
    {
        let table = match json {
            Some(text) => parse_table(text),
            None => None,
        };
        match table {
            Some(table) => DiskImage { json: table, files },
            None => DiskImage { json: NameMap::new(), files },
        }
    }

    /// Stores a string: a multi-line value in its own file, any other in the JSON file, and each
    /// value in one layer only.
    pub fn store(&mut self, key: &str, value: &str)
        ensures
            final(self)@ == old(self)@.stored(key@, value@),
    {
        if is_multiline(value) {
            self.files.insert(key.to_owned(), value.to_owned());
            self.json.remove(key);
        } else {
            self.files.remove(key);
            self.json.insert(key.to_owned(), value.to_owned());
        }
    }

    /// Erases a string from both layers.
    pub fn erase(&mut self, key: &str)
        ensures
            final(self)@ == old(self)@.erased(key@),
    {
        self.json.remove(key);
        self.files.remove(key);
    }

    /// Loads the strings from both layers.
    pub fn load(&self) -> (user: NameMap<String>)
        ensures
            user@ == self@.loaded(),
    {
        let mut user: NameMap<String> = NameMap::new();
        let mut i: usize = 0;
        while i < self.json.len()
            invariant
                i <= self.json@.len(),
                user@ == self.json@.take(i as int),
            decreases self.json@.len() - i,
        {
            proof {
                use_type_invariant(&self.json);
                lemma_append(self.json@, i as int);
            }
            user.insert(self.json.name_at(i).to_owned(), self.json.value_at(i).clone());
            i = i + 1;
        }
        assert(self.json@.take(i as int) =~= self.json@);
        let mut k: usize = 0;
        while k < self.files.len()
            invariant
                k <= self.files@.len(),
                user@ == overlaid_valid(self.json@, self.files@, k as int),
            decreases self.files@.len() - k,
        {
            if is_valid_key(self.files.name_at(k)) {
                user.insert(self.files.name_at(k).to_owned(), self.files.value_at(k).clone());
            }
            k = k + 1;
        }
        user
    }
}

proof fn lemma_append(entries: Entries, at: int)
    requires
        names::ascending(entries),
        0 <= at < entries.len(),
    ensures
        names::with_entry(entries.take(at), entries[at].0, entries[at].1) == entries.take(at + 1),
{
    let head = entries.take(at);
    lemma_take_ascends(entries, at);
    assert forall|i: int| 0 <= i < at implies names::precedes(
        (#[trigger] head[i]).0,
        entries[at].0,
    ) by {
        assert(names::precedes(entries[i].0, entries[at].0));
    }
    names::lemma_rank_unique(head, entries[at].0, at);
    assert(names::with_entry(head, entries[at].0, entries[at].1) =~= entries.take(at + 1));
}

/// What is set is found again after a reload, and every other string is found as before.
///
/// It is stated for the keys that can be set.
pub proof fn law_stored_strings_are_reloaded(
    disk: DiskModel,
    key: Seq<char>,
    value: Seq<char>,
    other: Seq<char>,
)
    requires
        disk.well_formed(),
        valid_key(key),
    ensures
        names::lookup(disk.stored(key, value).loaded(), key) == Some(value),
        other != key ==> names::lookup(disk.stored(key, value).loaded(), other) == names::lookup(
            disk.loaded(),
            other,
        ),
        names::lookup(disk.erased(key).loaded(), key) is None,
        other != key ==> names::lookup(disk.erased(key).loaded(), other) == names::lookup(
            disk.loaded(),
            other,
        ),
{
    lemma_loaded(disk, key);
    lemma_loaded(disk, other);
    names::law_reads_follow_writes(disk.json, key, value, other);
    names::law_reads_follow_writes(disk.files, key, value, other);
    names::lemma_with_entry_ascending(disk.json, key, value);
    names::lemma_with_entry_ascending(disk.files, key, value);
    names::lemma_without_entry_ascending(disk.json, key);
    names::lemma_without_entry_ascending(disk.files, key);
    lemma_loaded(disk.stored(key, value), key);
    lemma_loaded(disk.stored(key, value), other);
    lemma_loaded(disk.erased(key), key);
    lemma_loaded(disk.erased(key), other);
}

/// Each string is kept in one layer only, whichever it was in before.
pub proof fn law_strings_are_kept_once(disk: DiskModel, key: Seq<char>, value: Seq<char>)
    requires
        disk.well_formed(),
    ensures
        disk.stored(key, value).well_formed(),
        names::lookup(disk.stored(key, value).json, key) is Some <==> !multiline(value),
        names::lookup(disk.stored(key, value).files, key) is Some <==> multiline(value),
{
    names::law_reads_follow_writes(disk.json, key, value, key);
    names::law_reads_follow_writes(disk.files, key, value, key);
    names::lemma_with_entry_ascending(disk.json, key, value);
    names::lemma_with_entry_ascending(disk.files, key, value);
    names::lemma_without_entry_ascending(disk.json, key);
    names::lemma_without_entry_ascending(disk.files, key);
}

proof fn lemma_loaded(disk: DiskModel, name: Seq<char>)
    requires
        disk.well_formed(),
    ensures
        names::ascending(disk.loaded()),
        names::lookup(disk.loaded(), name) == match names::lookup(disk.files, name) {
            Some(value) => if valid_key(name) {
                Some(value)
            } else {
                names::lookup(disk.json, name)
            },
            None => names::lookup(disk.json, name),
        },
{
    lemma_overlaid_valid(disk.json, disk.files, disk.files.len() as int, name);
    assert(disk.files.take(disk.files.len() as int) =~= disk.files);
}

/// User strings and computed strings.
pub struct StringStore {
    user: NameMap<String>,
    computed: NameMap<String>,
    version: u64,
}

/// What a store holds.
pub struct StoreModel {
    pub user: Entries,
    pub computed: Entries,
    pub version: u64,
}

impl View for StringStore {
    type V = StoreModel;

    closed spec fn view(&self) -> StoreModel {
        StoreModel { user: self.user@, computed: self.computed@, version: self.version }
    }
}

/// The version after a change.
pub open spec fn next_version(version: u64) -> u64 {
    if version == u64::MAX {
        0
    } else {
        (version + 1) as u64
    }
}

impl StoreModel {
    /// All entries: the computed ones win.
    pub open spec fn merged(self) -> Entries {
        overlaid(self.user, self.computed, self.computed.len() as int)
    }

    /// The store with a user string set.
    pub open spec fn with_user(self, key: Seq<char>, value: Seq<char>) -> StoreModel {
        StoreModel {
            user: names::with_entry(self.user, key, value),
            version: next_version(self.version),
            ..self
        }
    }

    /// The store without a user string.
    pub open spec fn without_user(self, key: Seq<char>) -> StoreModel {
        StoreModel {
            user: names::without_entry(self.user, key),
            version: next_version(self.version),
            ..self
        }
    }

    /// The store with a computed string set.
    pub open spec fn with_computed(self, key: Seq<char>, value: Seq<char>) -> StoreModel {
        StoreModel {
            computed: names::with_entry(self.computed, key, value),
            version: next_version(self.version),
            ..self
        }
    }

    /// The store without a computed string.
    pub open spec fn without_computed(self, key: Seq<char>) -> StoreModel {
        StoreModel {
            computed: names::without_entry(self.computed, key),
            version: next_version(self.version),
            ..self
        }
    }
}

/// A merged read gives the computed string under a key, and the user string without one.
pub proof fn law_computed_strings_win(store: StoreModel, key: Seq<char>)
    requires
        names::ascending(store.user),
        names::ascending(store.computed),
    ensures
        names::lookup(store.merged(), key) == match names::lookup(store.computed, key) {
            Some(value) => Some(value),
            None => names::lookup(store.user, key),
        },
{
    lemma_overlaid(store.user, store.computed, store.computed.len() as int, key);
    assert(store.computed.take(store.computed.len() as int) =~= store.computed);
}

/// The strings in memory are those that a reload would give, and every change keeps them so.
pub proof fn law_memory_follows_the_disk(
    store: StoreModel,
    disk: DiskModel,
    key: Seq<char>,
    value: Seq<char>,
)
    requires
        disk.well_formed(),
        store.user == disk.loaded(),
        valid_key(key),
    ensures
        store.with_user(key, value).user == disk.stored(key, value).loaded(),
        store.without_user(key).user == disk.erased(key).loaded(),
{
    lemma_loaded(disk, key);
    names::lemma_with_entry_ascending(store.user, key, value);
    names::lemma_without_entry_ascending(store.user, key);
    names::lemma_with_entry_ascending(disk.json, key, value);
    names::lemma_with_entry_ascending(disk.files, key, value);
    names::lemma_without_entry_ascending(disk.json, key);
    names::lemma_without_entry_ascending(disk.files, key);
    lemma_loaded(disk.stored(key, value), key);
    lemma_loaded(disk.erased(key), key);
    let set = store.with_user(key, value).user;
    let stored = disk.stored(key, value).loaded();
    assert forall|name: Seq<char>| names::lookup(set, name) == #[trigger] names::lookup(
        stored,
        name,
    ) by {
        law_stored_strings_are_reloaded(disk, key, value, name);
        names::law_reads_follow_writes(store.user, key, value, name);
    }
    names::lemma_reads_determine_entries(set, stored);
    let deleted = store.without_user(key).user;
    let erased = disk.erased(key).loaded();
    assert forall|name: Seq<char>| names::lookup(deleted, name) == #[trigger] names::lookup(
        erased,
        name,
    ) by {
        law_stored_strings_are_reloaded(disk, key, value, name);
        names::law_reads_follow_writes(store.user, key, value, name);
    }
    names::lemma_reads_determine_entries(deleted, erased);
}

/// Why a user may not change a key.
pub open spec fn refusal(key: Seq<char>) -> Option<StringStoreError> {
    if is_computed(key) {
        Some(StringStoreError::ComputedReadonly)
    } else if !valid_key(key) {
        Some(StringStoreError::InvalidKey)
    } else {
        None
    }
}

impl StringStore {
    /// Opens a store on what stands on disk.
    pub fn new(disk: &DiskImage) -> (store: StringStore)
        ensures
            store@ == (StoreModel {
                user: disk@.loaded(),
                computed: Seq::empty(),
                version: 0,
            }),
    {
        StringStore { user: disk.load(), computed: NameMap::new(), version: 0 }
    }

    /// Returns the number of changes so far, modulo the range of the counter.
    pub fn version(&self) -> (version: u64)
        ensures
            version == self@.version,
    {
        self.version
    }

    fn notify_changed(&mut self)
        ensures
            final(self)@ == (StoreModel { version: next_version(old(self)@.version), ..old(self)@ }),
    {
        self.version = if self.version == u64::MAX {
            0
        } else {
            self.version + 1
        };
    }

    /// All entries merged: user store + computed (computed wins on conflict).
    pub fn get_all(&self) -> (all: NameMap<String>)
        ensures
            all@ == self@.merged(),
    {
        let mut all: NameMap<String> = NameMap::new();
        let mut i: usize = 0;
        while i < self.user.len()
            invariant
                i <= self.user@.len(),
                all@ == self.user@.take(i as int),
            decreases self.user@.len() - i,
        {
            proof {
                use_type_invariant(&self.user);
                lemma_append(self.user@, i as int);
            }
            all.insert(self.user.name_at(i).to_owned(), self.user.value_at(i).clone());
            i = i + 1;
        }
        assert(self.user@.take(i as int) =~= self.user@);
        let mut k: usize = 0;
        while k < self.computed.len()
            invariant
                k <= self.computed@.len(),
                all@ == overlaid(self.user@, self.computed@, k as int),
            decreases self.computed@.len() - k,
        {
            all.insert(self.computed.name_at(k).to_owned(), self.computed.value_at(k).clone());
            k = k + 1;
        }
        all
    }

    /// The merged entries as a JSON object.
    pub fn snapshot_text(&self) -> (text: String)
        ensures
            json_text(self@.merged()) == Some(text@),
            json_entries(text@) == Some(self@.merged()),
    {
        table_text(&self.get_all())
    }

    /// Reads one entry of the merged view.
    pub fn get_one(&self, key: &str) -> (value: Option<String>)
        ensures
            match value {
                Some(value) => names::lookup(self@.merged(), key@) == Some(value@),
                None => names::lookup(self@.merged(), key@) is None,
            },
    {
        let all = self.get_all();
        match all.get(key) {
            Some(value) => Some(value.clone()),
            None => None,
        }
    }

    /// Set a user string, here and on disk. Refused if the key is `$`-prefixed or invalid.
    pub fn set(&mut self, disk: &mut DiskImage, key: &str, value: &str) -> (result: Result<
        (),
        StringStoreError,
    >)
        ensures
            match result {
                Ok(()) => refusal(key@) is None && final(self)@ == old(self)@.with_user(
                    key@,
                    value@,
                ) && final(disk)@ == old(disk)@.stored(key@, value@),
                Err(error) => refusal(key@) == Some(error) && final(self)@ == old(self)@
                    && final(disk)@ == old(disk)@,
            },
    {
        if begins_computed(key) {
            return Err(StringStoreError::ComputedReadonly);
        }
        if !is_valid_key(key) {
            return Err(StringStoreError::InvalidKey);
        }
        self.user.insert(key.to_owned(), value.to_owned());
        disk.store(key, value);
        self.notify_changed();
        Ok(())
    }

    /// Delete a user string, here and on disk. Refused if the key is `$`-prefixed or invalid.
    pub fn delete(&mut self, disk: &mut DiskImage, key: &str) -> (result: Result<
        (),
        StringStoreError,
    >)
        ensures
            match result {
                Ok(()) => refusal(key@) is None && final(self)@ == old(self)@.without_user(key@)
                    && final(disk)@ == old(disk)@.erased(key@),
                Err(error) => refusal(key@) == Some(error) && final(self)@ == old(self)@
                    && final(disk)@ == old(disk)@,
            },
    {
        if begins_computed(key) {
            return Err(StringStoreError::ComputedReadonly);
        }
        if !is_valid_key(key) {
            return Err(StringStoreError::InvalidKey);
        }
        self.user.remove(key);
        disk.erase(key);
        self.notify_changed();
        Ok(())
    }

    /// Push a computed string. Key must start with `$`.
    pub fn set_computed(&mut self, key: &str, value: String)
        requires
            is_computed(key@),
        ensures
            final(self)@ == old(self)@.with_computed(key@, value@),
    {
        self.computed.insert(key.to_owned(), value);
        self.notify_changed();
    }

    /// Remove a computed string.
    pub fn clear_computed(&mut self, key: &str)
        ensures
            final(self)@ == old(self)@.without_computed(key@),
    {
        self.computed.remove(key);
        self.notify_changed();
    }

    /// Answers a request to set a computed string; other keys are refused.
    pub fn put_computed(&mut self, key: &str, body: String) -> (reply: StringReply)
        ensures
            if is_computed(key@) {
                reply.accepts() && final(self)@ == old(self)@.with_computed(key@, body@)
            } else {
                reply.refuses(400, "key must start with $"@) && final(self)@ == old(self)@
            },
    {
        if !begins_computed(key) {
            return StringReply { status: 400, error: Some("key must start with $") };
        }
        self.set_computed(key, body);
        StringReply { status: 200, error: None }
    }

    /// Answers a request to remove a computed string; other keys are refused.
    pub fn delete_computed(&mut self, key: &str) -> (reply: StringReply)
        ensures
            if is_computed(key@) {
                reply.accepts() && final(self)@ == old(self)@.without_computed(key@)
            } else {
                reply.refuses(400, "key must start with $"@) && final(self)@ == old(self)@
            },
    {
        if !begins_computed(key) {
            return StringReply { status: 400, error: Some("key must start with $") };
        }
        self.clear_computed(key);
        StringReply { status: 200, error: None }
    }

    /// Reload all user strings from disk.
    pub fn reload(&mut self, disk: &DiskImage)
        ensures
            final(self)@ == (StoreModel {
                user: disk@.loaded(),
                version: next_version(old(self)@.version),
                ..old(self)@
            }),
    {
        self.user = disk.load();
        self.notify_changed();
    }
}

/// A key names a user string exactly if it has characters and all of them are ASCII letters, digits,
/// hyphens or underscores; a value spans lines exactly if a line break stands in front of the white
/// space it ends with.
pub proof fn law_keys_and_values_are_told_apart(
    key: &str,
    valid: bool,
    value: &str,
    spans: bool,
    trimmed: String,
)
    requires
        call_ensures(is_valid_key, (key,), valid),
        call_ensures(is_multiline, (value,), spans),
        call_ensures(text::trim_end, (value,), trimmed),
    ensures
        valid <==> key@.len() > 0 && forall|i: int|
            0 <= i < key@.len() ==> {
                let c = #[trigger] key@[i];
                ||| '0' <= c <= '9'
                ||| 'A' <= c <= 'Z'
                ||| 'a' <= c <= 'z'
                ||| c == '-'
                ||| c == '_'
            },
        spans <==> exists|i: int| 0 <= i < trimmed@.len() && #[trigger] trimmed@[i] == '\n',
{
    if valid_key(key@) {
        assert forall|i: int| 0 <= i < key@.len() implies {
            let c = #[trigger] key@[i];
            ||| '0' <= c <= '9'
            ||| 'A' <= c <= 'Z'
            ||| 'a' <= c <= 'z'
            ||| c == '-'
            ||| c == '_'
        } by {
            assert(is_key_char(key@[i]));
        }
    }
    if multiline(value@) {
        let i = choose|i: int| 0 <= i < trimmed@.len() && trimmed@[i] == '\n';
        assert(trimmed@[i] == '\n');
    }
}

/// A key is found again in the name of its file, and nothing else names a file of a key.
pub proof fn law_files_are_named_by_key(
    key: &str,
    valid: bool,
    file_name: String,
    slice: &str,
    found: Option<String>,
    any: &str,
    of_any: Option<String>,
)
    requires
        call_ensures(is_valid_key, (key,), valid),
        call_ensures(markdown_file, (key,), file_name),
        slice@ == file_name@,
        call_ensures(markdown_key, (slice,), found),
        call_ensures(markdown_key, (any,), of_any),
    ensures
        file_name@ == key@ + ".md"@,
        valid ==> found is Some && found->Some_0@ == key@,
        of_any matches Some(name) ==> any@ == name@ + ".md"@,
{
    reveal_strlit(".md");
    if let Some(name) = of_any {
        assert(any@ =~= name@ + ".md"@);
    }
}

/// A user may change exactly the strings under valid keys; what is set is read from memory and from
/// disk, other strings stay as they are, and a refused change changes nothing.
pub proof fn law_set_strings_are_read(
    before: StringStore,
    disk_before: DiskImage,
    store: &mut StringStore,
    disk: &mut DiskImage,
    key: &str,
    valid: bool,
    value: &str,
    other: &str,
    result: Result<(), StringStoreError>,
    reads: (Option<String>, Option<String>, Option<String>),
    loaded: NameMap<String>,
)
    requires
        names::ascending(before@.user) && names::ascending(before@.computed),
        disk_before@.well_formed(),
        *old(store) == before && *old(disk) == disk_before,
        other@ != key@,
        names::lookup(before@.computed, key@) is None,
        call_ensures(is_valid_key, (key,), valid),
        call_ensures(StringStore::set, (store, disk, key, value), result),
        call_ensures(StringStore::get_one, (final(store), key), reads.0),
        call_ensures(StringStore::get_one, (&before, other), reads.1),
        call_ensures(StringStore::get_one, (final(store), other), reads.2),
        call_ensures(DiskImage::load, (final(disk),), loaded),
    ensures
        result is Ok <==> valid,
        !valid ==> (result == Err::<(), _>(StringStoreError::ComputedReadonly) <==> key@.len() > 0
            && key@[0] == '$'),
        !valid ==> final(store)@ == old(store)@ && final(disk)@ == old(disk)@,
        valid ==> reads.0 is Some && reads.0->Some_0@ == value@,
        valid ==> names::lookup(loaded@, key@) == Some(value@),
        reads.2 is Some <==> reads.1 is Some,
        reads.1 is Some ==> reads.2->Some_0@ == reads.1->Some_0@,
{
    if valid {
        assert(is_key_char(key@[0]));
        law_stored_strings_are_reloaded(disk_before@, key@, value@, other@);
        names::law_reads_follow_writes(before@.user, key@, value@, key@);
        names::law_reads_follow_writes(before@.user, key@, value@, other@);
        names::lemma_with_entry_ascending(before@.user, key@, value@);
        law_computed_strings_win(final(store)@, key@);
        law_computed_strings_win(final(store)@, other@);
        law_computed_strings_win(before@, other@);
    }
}

/// A deleted string is found neither in memory nor on disk, and every other one is.
pub proof fn law_deleted_strings_are_gone(
    before: StringStore,
    disk_before: DiskImage,
    store: &mut StringStore,
    disk: &mut DiskImage,
    key: &str,
    valid: bool,
    other: &str,
    result: Result<(), StringStoreError>,
    reads: (Option<String>, Option<String>, Option<String>),
    loaded: (NameMap<String>, NameMap<String>),
)
    requires
        names::ascending(before@.user) && names::ascending(before@.computed),
        disk_before@.well_formed(),
        *old(store) == before && *old(disk) == disk_before,
        other@ != key@,
        names::lookup(before@.computed, key@) is None,
        call_ensures(is_valid_key, (key,), valid),
        call_ensures(StringStore::delete, (store, disk, key), result),
        call_ensures(StringStore::get_one, (final(store), key), reads.0),
        call_ensures(StringStore::get_one, (&before, other), reads.1),
        call_ensures(StringStore::get_one, (final(store), other), reads.2),
        call_ensures(DiskImage::load, (final(disk),), loaded.0),
        call_ensures(DiskImage::load, (&disk_before,), loaded.1),
    ensures
        result is Ok <==> valid,
        !valid ==> final(store)@ == old(store)@ && final(disk)@ == old(disk)@,
        valid ==> reads.0 is None && names::lookup(loaded.0@, key@) is None,
        names::lookup(loaded.0@, other@) == names::lookup(loaded.1@, other@),
        reads.2 is Some <==> reads.1 is Some,
        reads.1 is Some ==> reads.2->Some_0@ == reads.1->Some_0@,
{
    if valid {
        assert(is_key_char(key@[0]));
        law_stored_strings_are_reloaded(disk_before@, key@, Seq::empty(), other@);
        names::law_reads_follow_writes(before@.user, key@, Seq::empty(), key@);
        names::law_reads_follow_writes(before@.user, key@, Seq::empty(), other@);
        names::lemma_without_entry_ascending(before@.user, key@);
        law_computed_strings_win(final(store)@, key@);
        law_computed_strings_win(final(store)@, other@);
        law_computed_strings_win(before@, other@);
    }
}

/// A computed string is read whatever user string stands under its key, and that one is read again
/// once the computed string is cleared.
pub proof fn law_computed_strings_are_read_first(
    before: StringStore,
    store: &mut StringStore,
    clearing: &mut StringStore,
    key: &str,
    value: String,
    reads: (Option<String>, Option<String>),
)
    requires
        names::ascending(before@.user) && names::ascending(before@.computed),
        key@.len() > 0 && key@[0] == '$',
        *old(store) == before,
        call_ensures(StringStore::set_computed, (store, key, value), ()),
        call_ensures(StringStore::get_one, (final(store), key), reads.0),
        *old(clearing) == *final(store),
        call_ensures(StringStore::clear_computed, (clearing, key), ()),
        call_ensures(StringStore::get_one, (final(clearing), key), reads.1),
    ensures
        reads.0 is Some && reads.0->Some_0@ == value@,
        reads.1 is Some <==> names::lookup(before@.user, key@) is Some,
        reads.1 is Some ==> reads.1->Some_0@ == names::lookup(before@.user, key@)->Some_0,
        final(clearing)@.user == before@.user,
{
    names::law_reads_follow_writes(before@.computed, key@, value@, key@);
    names::lemma_with_entry_ascending(before@.computed, key@, value@);
    names::law_reads_follow_writes(final(store)@.computed, key@, value@, key@);
    names::lemma_without_entry_ascending(final(store)@.computed, key@);
    law_computed_strings_win(final(store)@, key@);
    law_computed_strings_win(final(clearing)@, key@);
}

/// Changes are answered with 200, changes of computed strings by a user with 403, and changes under
/// other keys with 400; requests for computed strings are taken exactly under keys that begin with
/// a dollar sign.
pub proof fn law_changes_are_answered(
    result: Result<(), StringStoreError>,
    reply: StringReply,
    store: &mut StringStore,
    removing: &mut StringStore,
    key: &str,
    body: String,
    replies: (StringReply, StringReply),
)
    requires
        call_ensures(StringReply::of, (result,), reply),
        call_ensures(StringStore::put_computed, (store, key, body), replies.0),
        call_ensures(StringStore::delete_computed, (removing, key), replies.1),
    ensures
        result is Ok ==> reply.status == 200 && reply.error is None,
        result == Err::<(), _>(StringStoreError::ComputedReadonly) ==> reply.status == 403,
        result == Err::<(), _>(StringStoreError::InvalidKey) ==> reply.status == 400,
        ({
            let computed = key@.len() > 0 && key@[0] == '$';
            &&& computed <==> replies.0.status == 200
            &&& computed <==> replies.1.status == 200
            &&& !computed ==> replies.0.status == 400 && replies.1.status == 400
            &&& !computed ==> final(store)@ == old(store)@ && final(removing)@ == old(removing)@
        }),
{
}

/// Every change counts the version up by one.
pub proof fn law_changes_are_counted(
    disk_before: DiskImage,
    opened: StringStore,
    store: &mut StringStore,
    disk: &mut DiskImage,
    reloading: &mut StringStore,
    computing: &mut StringStore,
    key: &str,
    value: &str,
    computed_key: &str,
    computed: String,
)
    requires
        old(store)@.version < 0xFFFF_FFFF_FFFF_FFFF,
        *old(reloading) == *old(store) && *old(computing) == *old(store),
        call_ensures(StringStore::new, (&disk_before,), opened),
        call_ensures(StringStore::set, (store, disk, key, value), Ok::<(), StringStoreError>(())),
        call_ensures(StringStore::reload, (reloading, &disk_before), ()),
        call_ensures(StringStore::set_computed, (computing, computed_key, computed), ()),
    ensures
        opened@.version == 0,
        final(store)@.version == old(store)@.version + 1,
        final(reloading)@.version == old(store)@.version + 1,
        final(computing)@.version == old(store)@.version + 1,
        final(reloading)@.user == opened@.user,
        final(reloading)@.computed == old(store)@.computed,
        opened@.computed.len() == 0,
{
}

/// A value that spans lines is stored in the file of its key and any other in the JSON file, never
/// in both; erasing removes it from both, and no other string moves.
pub proof fn law_values_are_stored_by_their_lines(
    disk: &mut DiskImage,
    erasing: &mut DiskImage,
    key: &str,
    value: &str,
    spans: bool,
    other: Seq<char>,
)
    requires
        old(disk)@.well_formed(),
        other != key@,
        call_ensures(is_multiline, (value,), spans),
        call_ensures(DiskImage::store, (disk, key, value), ()),
        *old(erasing) == *final(disk),
        call_ensures(DiskImage::erase, (erasing, key), ()),
    ensures
        spans ==> names::lookup(final(disk)@.files, key@) == Some(value@) && names::lookup(
            final(disk)@.json,
            key@,
        ) is None,
        !spans ==> names::lookup(final(disk)@.json, key@) == Some(value@) && names::lookup(
            final(disk)@.files,
            key@,
        ) is None,
        names::lookup(final(erasing)@.json, key@) is None && names::lookup(
            final(erasing)@.files,
            key@,
        ) is None,
        names::lookup(final(erasing)@.json, other) == names::lookup(old(disk)@.json, other),
        names::lookup(final(erasing)@.files, other) == names::lookup(old(disk)@.files, other),
{
    let before = old(disk)@;
    let during = final(disk)@;
    law_strings_are_kept_once(before, key@, value@);
    names::law_reads_follow_writes(before.json, key@, value@, key@);
    names::law_reads_follow_writes(before.files, key@, value@, key@);
    names::law_reads_follow_writes(before.json, key@, value@, other);
    names::law_reads_follow_writes(before.files, key@, value@, other);
    names::law_reads_follow_writes(during.json, key@, value@, key@);
    names::law_reads_follow_writes(during.files, key@, value@, key@);
    names::law_reads_follow_writes(during.json, key@, value@, other);
    names::law_reads_follow_writes(during.files, key@, value@, other);
}

/// A JSON file that is no table of strings is refused on loading, and counts as empty for a change;
/// one that is missing is empty.
pub proof fn law_layers_are_read(
    json: Option<&str>,
    files: NameMap<String>,
    table: Option<NameMap<String>>,
    empty: DiskImage,
    loaded: Option<DiskImage>,
    changed: DiskImage,
)
    requires
        json matches Some(text) ==> call_ensures(parse_table, (text,), table),
        call_ensures(DiskImage::new, (), empty),
        call_ensures(DiskImage::read, (json, files), loaded),
        call_ensures(DiskImage::read_for_change, (json, files), changed),
    ensures
        empty@.json.len() == 0 && empty@.files.len() == 0,
        loaded is None <==> json is Some && table is None,
        loaded matches Some(disk) ==> disk@.files == files@ && disk@ == changed@,
        changed@.files == files@,
        json is None ==> changed@.json.len() == 0,
        json is Some && table is None ==> changed@.json.len() == 0,
        json is Some && table is Some ==> changed@.json == table->Some_0@,
{
}

/// A table that was written is read back, and all strings are what is read one by one.
pub proof fn law_tables_are_read_back(
    table: NameMap<String>,
    written: String,
    slice: &str,
    back: Option<NameMap<String>>,
    store: StringStore,
    all: NameMap<String>,
    key: &str,
    one: Option<String>,
    version: u64,
)
    requires
        call_ensures(table_text, (&table,), written),
        slice@ == written@,
        call_ensures(parse_table, (slice,), back),
        call_ensures(StringStore::get_all, (&store,), all),
        call_ensures(StringStore::get_one, (&store, key), one),
        call_ensures(StringStore::version, (&store,), version),
    ensures
        back is Some && back->Some_0@ == table@,
        one is Some <==> names::lookup(all@, key@) is Some,
        one matches Some(value) ==> names::lookup(all@, key@) == Some(value@),
        version == store@.version,
{
}

/// Files of valid keys win over the JSON file on loading, and files of other names do not count.
pub proof fn law_files_win_on_loading(
    disk: DiskImage,
    loaded: NameMap<String>,
    key: &str,
    valid: bool,
)
    requires
        disk@.well_formed(),
        call_ensures(DiskImage::load, (&disk,), loaded),
        call_ensures(is_valid_key, (key,), valid),
    ensures
        valid && names::lookup(disk@.files, key@) is Some ==> names::lookup(loaded@, key@)
            == names::lookup(disk@.files, key@),
        !valid || names::lookup(disk@.files, key@) is None ==> names::lookup(loaded@, key@)
            == names::lookup(disk@.json, key@),
{
    lemma_loaded(disk@, key@);
}

/// A computed string that is put is held under its key, and one that is deleted is not; user strings
/// stay as they are.
pub proof fn law_computed_requests_take_effect(
    store: &mut StringStore,
    removing: &mut StringStore,
    key: &str,
    body: String,
    replies: (StringReply, StringReply),
)
    requires
        names::ascending(old(store)@.computed) && names::ascending(old(removing)@.computed),
        key@.len() > 0 && key@[0] == '$',
        call_ensures(StringStore::put_computed, (store, key, body), replies.0),
        call_ensures(StringStore::delete_computed, (removing, key), replies.1),
    ensures
        names::lookup(final(store)@.computed, key@) == Some(body@),
        names::lookup(final(removing)@.computed, key@) is None,
        final(store)@.user == old(store)@.user && final(removing)@.user == old(removing)@.user,
{
    names::law_reads_follow_writes(old(store)@.computed, key@, body@, key@);
    names::law_reads_follow_writes(old(removing)@.computed, key@, body@, key@);
}

} // verus!
