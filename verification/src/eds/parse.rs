//! EDS file syntax: `[Section]` headers, `Keyword = field, field, ...;`
//! entries, `$` comments to end of line, and double-quoted strings. Adjacent
//! strings in one field are joined, which is how long strings span lines.

use vstd::prelude::*;
use vstd::string::*;

use crate::error::{Error, Result};
use crate::text::{
    chars_of, dec, eq_ignore_case, is_white, is_whitespace, parse_u64, parse_unsigned, push_char, push_dec, str_eq_ignore_case,
    string_of, trim, trim_bounds,
};

verus! {

/// A field of an entry, with strings as character sequences.
pub ghost enum FieldView {
    Empty,
    Str(Seq<char>),
    Token(Seq<char>),
}

#[derive(Debug, Clone, PartialEq, Eq)]
pub enum Field {
    Empty,
    /// A quoted string, without the quotes.
    Str(String),
    /// Unquoted text, trimmed: a number, a reference like `Param4`, etc.
    Token(String),
}

impl View for Field {
    type V = FieldView;

    open spec fn view(&self) -> FieldView {
        match self {
            Field::Empty => FieldView::Empty,
            Field::Str(s) => FieldView::Str(s@),
            Field::Token(s) => FieldView::Token(s@),
        }
    }
}

/// The text of a string or token; `None` for an empty field.
pub open spec fn field_text(f: FieldView) -> Option<Seq<char>> {
    match f {
        FieldView::Empty => None,
        FieldView::Str(s) => Some(s),
        FieldView::Token(s) => Some(s),
    }
}

impl Field {
    /// The text of a string or token; `None` for an empty field.
    pub fn text(&self) -> (r: Option<&str>)
        ensures
            match field_text(self@) {
                None => r is None,
                Some(t) => r matches Some(x) && x@ == t,
            },
    {
        match self {
            Field::Empty => None,
            Field::Str(s) => Some(s.as_str()),
            Field::Token(s) => Some(s.as_str()),
        }
    }
}

/// An entry: its keyword, fields, and the line it starts on.
pub ghost struct EntryView {
    pub keyword: Seq<char>,
    pub fields: Seq<FieldView>,
    pub line: nat,
}

#[derive(Debug, Clone, PartialEq, Eq)]
pub struct Entry {
    pub keyword: String,
    pub fields: Vec<Field>,
    /// Line of the keyword, 1-based.
    pub line: usize,
}

/// The views of some fields.
pub open spec fn field_views(fields: Seq<Field>) -> Seq<FieldView> {
    fields.map_values(|f: Field| f@)
}

impl View for Entry {
    type V = EntryView;

    open spec fn view(&self) -> EntryView {
        EntryView { keyword: self.keyword@, fields: field_views(self.fields@), line: self.line as nat }
    }
}

/// Field `i` of an entry; empty past its last field.
pub open spec fn field_at(e: EntryView, i: int) -> FieldView {
    if 0 <= i < e.fields.len() { e.fields[i] } else { FieldView::Empty }
}

impl Entry {
    /// Field `i`; empty past the last field.
    pub fn field(&self, i: usize) -> (r: Field)
        ensures
            r@ == field_at(self@, i as int),
    {
        if i < self.fields.len() {
            match &self.fields[i] {
                Field::Empty => Field::Empty,
                Field::Str(s) => Field::Str(s.clone()),
                Field::Token(s) => Field::Token(s.clone()),
            }
        } else {
            Field::Empty
        }
    }
}

/// A section: its name and entries.
pub ghost struct SectionView {
    pub name: Seq<char>,
    pub entries: Seq<EntryView>,
}

#[derive(Debug, Clone, PartialEq, Eq)]
pub struct Section {
    pub name: String,
    pub entries: Vec<Entry>,
}

pub open spec fn entry_views(entries: Seq<Entry>) -> Seq<EntryView> {
    entries.map_values(|e: Entry| e@)
}

impl View for Section {
    type V = SectionView;

    open spec fn view(&self) -> SectionView {
        SectionView { name: self.name@, entries: entry_views(self.entries@) }
    }
}

pub open spec fn section_views(sections: Seq<Section>) -> Seq<SectionView> {
    sections.map_values(|s: Section| s@)
}

/// The index of the first entry whose keyword is `keyword`, ignoring case.
pub open spec fn find_entry(entries: Seq<EntryView>, keyword: Seq<char>) -> Option<int> {
    if exists|i: int| 0 <= i < entries.len() && eq_ignore_case(#[trigger] entries[i].keyword, keyword) {
        let i = choose|i: int|
            0 <= i < entries.len() && eq_ignore_case(#[trigger] entries[i].keyword, keyword) && forall|j: int|
                0 <= j < i ==> !eq_ignore_case(#[trigger] entries[j].keyword, keyword);
        Some(i)
    } else {
        None
    }
}

impl Section {
    /// Finds an entry by keyword, ignoring case: the first that matches.
    pub fn get(&self, keyword: &str) -> (r: Option<&Entry>)
        ensures
            match find_entry(self@.entries, keyword@) {
                None => r is None,
                Some(i) => r matches Some(e) && e@ == self@.entries[i],
            },
    {
        let ghost es = self@.entries;
        let mut i: usize = 0;
        while i < self.entries.len()
            invariant
                i <= self.entries@.len(),
                es == self@.entries,
                forall|j: int| 0 <= j < i ==> !eq_ignore_case(#[trigger] es[j].keyword, keyword@),
            decreases self.entries@.len() - i,
        {
            if str_eq_ignore_case(self.entries[i].keyword.as_str(), keyword) {
                proof {
                    assert(es[i as int].keyword == self.entries@[i as int].keyword@);
                    let k = choose|k: int|
                        0 <= k < es.len() && eq_ignore_case(#[trigger] es[k].keyword, keyword@) && forall|j: int|
                            0 <= j < k ==> !eq_ignore_case(#[trigger] es[j].keyword, keyword@);
                    if k > i {
                        assert(!eq_ignore_case(es[i as int].keyword, keyword@));
                    }
                }
                return Some(&self.entries[i]);
            }
            assert(es[i as int].keyword == self.entries@[i as int].keyword@);
            i = i + 1;
        }
        None
    }
}

// ---- The grammar, over the file's characters ----

/// The number of line feeds in `s`.
pub open spec fn newlines(s: Seq<char>) -> nat
    decreases s.len(),
{
    if s.len() == 0 {
        0
    } else {
        newlines(s.drop_last()) + if s.last() == '\n' { 1nat } else { 0nat }
    }
}

/// The line (1-based) that position `i` is on.
pub open spec fn line_at(s: Seq<char>, i: int) -> nat {
    1 + newlines(s.take(i))
}

/// The position after a `$` comment whose text starts at `i`: after the
/// line feed that ends it, or the end of the file.
pub open spec fn comment_end(s: Seq<char>, i: int) -> int
    decreases s.len() - i,
{
    if i >= s.len() {
        i
    } else if s[i] == '\n' {
        i + 1
    } else {
        comment_end(s, i + 1)
    }
}

/// The position after the whitespace and comments that start at `i`.
pub open spec fn blank_end(s: Seq<char>, i: int) -> int
    decreases s.len() - i,
{
    if i >= s.len() {
        i
    } else if s[i] == '$' {
        proof {
            lemma_comment_end(s, i + 1);
        }
        blank_end(s, comment_end(s, i + 1))
    } else if is_white(s[i]) {
        blank_end(s, i + 1)
    } else {
        i
    }
}

/// Characters that end a run of unquoted text.
pub open spec fn stops_token(c: char) -> bool {
    c == ',' || c == ';' || c == '"' || c == '$' || c == '\n'
}

/// The end of the run of unquoted text that continues at `i`.
pub open spec fn token_end(s: Seq<char>, i: int) -> int
    decreases s.len() - i,
{
    if i >= s.len() || stops_token(s[i]) {
        i
    } else {
        token_end(s, i + 1)
    }
}

/// The contents of a string whose text starts at `i` (after the opening
/// quote), with `\n` for a line feed and a backslash taking the next
/// character as it is, and the position after the closing quote; `None` when
/// the file ends first.
pub open spec fn string_body(s: Seq<char>, i: int) -> Option<(Seq<char>, int)>
    decreases s.len() - i,
{
    if i >= s.len() {
        None
    } else if s[i] == '"' {
        Some((seq![], i + 1))
    } else if s[i] == '\\' {
        if i + 1 >= s.len() {
            None
        } else {
            match string_body(s, i + 2) {
                None => None,
                Some((t, k)) => Some((seq![if s[i + 1] == 'n' { '\n' } else { s[i + 1] }] + t, k)),
            }
        }
    } else {
        match string_body(s, i + 1) {
            None => None,
            Some((t, k)) => Some((seq![s[i]] + t, k)),
        }
    }
}

/// The field made of the strings and unquoted text read since the last
/// separator: the strings, joined, if there were any; else the text, trimmed,
/// or empty if that leaves nothing.
pub open spec fn field_of(strings: Option<Seq<char>>, token: Seq<char>) -> FieldView {
    match strings {
        Some(t) => FieldView::Str(t),
        None => if trim(token).len() == 0 {
            FieldView::Empty
        } else {
            FieldView::Token(trim(token))
        },
    }
}

/// The fields of an entry from `i` on, after the `fields` read so far and
/// the strings and text of the field in progress, and the position after
/// the `;` that ends the entry; `None` for an unterminated string or entry.
pub open spec fn fields_from(
    s: Seq<char>,
    i: int,
    fields: Seq<FieldView>,
    strings: Option<Seq<char>>,
    token: Seq<char>,
) -> Option<(Seq<FieldView>, int)>
    decreases s.len() - i,
{
    let j = blank_end(s, i);
    proof {
        lemma_blank_end(s, i);
    }
    if j >= s.len() {
        None
    } else if s[j] == '"' {
        proof {
            lemma_string_body(s, j + 1);
        }
        match string_body(s, j + 1) {
            None => None,
            Some((t, k)) => fields_from(
                s,
                k,
                fields,
                Some(
                    match strings {
                        Some(p) => p + t,
                        None => t,
                    },
                ),
                token,
            ),
        }
    } else if s[j] == ',' || s[j] == ';' {
        let f = fields.push(field_of(strings, token));
        if s[j] == ';' {
            Some((f, j + 1))
        } else {
            fields_from(s, j + 1, f, None, seq![])
        }
    } else {
        proof {
            lemma_token_end(s, j + 1);
        }
        let k = token_end(s, j + 1);
        fields_from(s, k, fields, strings, token + s.subrange(j, k))
    }
}

/// Characters that end a keyword.
pub open spec fn stops_keyword(c: char) -> bool {
    c == '=' || c == ';' || c == '[' || c == '"' || c == ','
}

pub open spec fn keyword_end(s: Seq<char>, i: int) -> int
    decreases s.len() - i,
{
    if i >= s.len() || stops_keyword(s[i]) {
        i
    } else {
        keyword_end(s, i + 1)
    }
}

/// The entry that starts at `i`: its keyword (trimmed) up to the `=`, then
/// its fields; and the position after it. `None` when no `=` follows the
/// keyword, or the fields are not terminated.
pub open spec fn entry_at(s: Seq<char>, i: int) -> Option<(EntryView, int)> {
    let j = keyword_end(s, i);
    if j >= s.len() || s[j] != '=' {
        None
    } else {
        match fields_from(s, j + 1, seq![], None, seq![]) {
            None => None,
            Some((f, k)) => Some((EntryView { keyword: trim(s.subrange(i, j)), fields: f, line: line_at(s, i) }, k)),
        }
    }
}

pub open spec fn header_end(s: Seq<char>, i: int) -> int
    decreases s.len() - i,
{
    if i >= s.len() || s[i] == ']' || s[i] == '\n' {
        i
    } else {
        header_end(s, i + 1)
    }
}

/// `secs` with `e` added to its last section.
pub open spec fn add_entry(secs: Seq<SectionView>, e: EntryView) -> Seq<SectionView> {
    secs.update(secs.len() - 1, SectionView { entries: secs.last().entries.push(e), ..secs.last() })
}

/// The sections of the file from `i` on, after the sections `secs` read so
/// far; `None` for a header without its `]` on the same line, an entry
/// before any section, or a malformed entry.
pub open spec fn sections_from(s: Seq<char>, i: int, secs: Seq<SectionView>) -> Option<Seq<SectionView>>
    decreases s.len() - i,
{
    let j = blank_end(s, i);
    proof {
        lemma_blank_end(s, i);
    }
    if j >= s.len() {
        Some(secs)
    } else if s[j] == '[' {
        proof {
            lemma_header_end(s, j + 1);
        }
        let k = header_end(s, j + 1);
        if k >= s.len() || s[k] == '\n' {
            None
        } else {
            sections_from(s, k + 1, secs.push(SectionView { name: trim(s.subrange(j + 1, k)), entries: seq![] }))
        }
    } else {
        proof {
            lemma_entry_at(s, j);
        }
        match entry_at(s, j) {
            None => None,
            Some((e, k)) => if secs.len() == 0 {
                None
            } else {
                sections_from(s, k, add_entry(secs, e))
            },
        }
    }
}

/// The sections of an EDS file.
pub open spec fn parse_sections(s: Seq<char>) -> Option<Seq<SectionView>> {
    sections_from(s, 0, seq![])
}

// ---- Error messages ----

/// A message about line `line`: `line N: msg`.
pub open spec fn line_message(line: nat, msg: Seq<char>) -> Seq<char> {
    "line "@ + dec(line) + ": "@ + msg
}

/// The message for fields from `i` that are not terminated, in the entry
/// with keyword `kw` that starts on line `line`: the end of the file before
/// the `;` is reported on the entry's line, a string that never closes on
/// the last line.
pub open spec fn fields_error(s: Seq<char>, i: int, kw: Seq<char>, line: nat) -> Seq<char>
    decreases s.len() - i,
{
    let j = blank_end(s, i);
    proof {
        lemma_blank_end(s, i);
    }
    if j >= s.len() {
        line_message(line, "entry '"@ + kw + "' has no terminating ';'"@)
    } else if s[j] == '"' {
        proof {
            lemma_string_body(s, j + 1);
        }
        match string_body(s, j + 1) {
            None => line_message(line_at(s, s.len() as int), "unterminated string"@),
            Some((t, k)) => fields_error(s, k, kw, line),
        }
    } else if s[j] == ',' {
        fields_error(s, j + 1, kw, line)
    } else if s[j] == ';' {
        seq![]
    } else {
        proof {
            lemma_token_end(s, j + 1);
        }
        fields_error(s, token_end(s, j + 1), kw, line)
    }
}

/// The message for an entry at `i` that does not read: no `=` after the
/// keyword (at the end of the file, or where another mark stands), else
/// fields that are not terminated.
pub open spec fn entry_error(s: Seq<char>, i: int) -> Seq<char> {
    let j = keyword_end(s, i);
    if j >= s.len() {
        line_message(line_at(s, s.len() as int), "expected '=' after '"@ + trim(s.subrange(i, s.len() as int)) + "'"@)
    } else if s[j] != '=' {
        line_message(
            line_at(s, j + 1),
            "expected '=' after '"@ + trim(s.subrange(i, j)) + "', found '"@ + seq![s[j]] + "'"@,
        )
    } else {
        fields_error(s, j + 1, trim(s.subrange(i, j)), line_at(s, i))
    }
}

/// The message for text from `i` that does not read, with the sections
/// `secs` read so far: a section header with no `]` (reported on the line
/// after it when the line ends first), an entry that does not read, or an
/// entry before any section.
pub open spec fn sections_error(s: Seq<char>, i: int, secs: Seq<SectionView>) -> Seq<char>
    decreases s.len() - i,
{
    let j = blank_end(s, i);
    proof {
        lemma_blank_end(s, i);
    }
    if j >= s.len() {
        seq![]
    } else if s[j] == '[' {
        proof {
            lemma_header_end(s, j + 1);
        }
        let k = header_end(s, j + 1);
        if k >= s.len() {
            line_message(line_at(s, s.len() as int), "unterminated section header"@)
        } else if s[k] == '\n' {
            line_message(line_at(s, k + 1), "unterminated section header"@)
        } else {
            sections_error(s, k + 1, secs.push(SectionView { name: trim(s.subrange(j + 1, k)), entries: seq![] }))
        }
    } else {
        proof {
            lemma_entry_at(s, j);
        }
        match entry_at(s, j) {
            None => entry_error(s, j),
            Some((e, k)) => if secs.len() == 0 {
                line_message(line_at(s, k), "entry '"@ + e.keyword + "' before any section"@)
            } else {
                sections_error(s, k, add_entry(secs, e))
            },
        }
    }
}

/// The message for a file that does not read.
pub open spec fn parse_error(s: Seq<char>) -> Seq<char> {
    sections_error(s, 0, seq![])
}

// ---- Positions only move forward ----

pub proof fn lemma_comment_end(s: Seq<char>, i: int)
    ensures
        i <= comment_end(s, i),
        i <= s.len() ==> comment_end(s, i) <= s.len(),
    decreases s.len() - i,
{
    if i < s.len() && s[i] != '\n' {
        lemma_comment_end(s, i + 1);
    }
}

pub proof fn lemma_blank_end(s: Seq<char>, i: int)
    ensures
        i <= blank_end(s, i),
        i <= s.len() ==> blank_end(s, i) <= s.len(),
    decreases s.len() - i,
{
    if i < s.len() {
        if s[i] == '$' {
            lemma_comment_end(s, i + 1);
            lemma_blank_end(s, comment_end(s, i + 1));
        } else if is_white(s[i]) {
            lemma_blank_end(s, i + 1);
        }
    }
}

pub proof fn lemma_token_end(s: Seq<char>, i: int)
    ensures
        i <= token_end(s, i),
        i <= s.len() ==> token_end(s, i) <= s.len(),
    decreases s.len() - i,
{
    if i < s.len() && !stops_token(s[i]) {
        lemma_token_end(s, i + 1);
    }
}

pub proof fn lemma_header_end(s: Seq<char>, i: int)
    ensures
        i <= header_end(s, i),
        i <= s.len() ==> header_end(s, i) <= s.len(),
    decreases s.len() - i,
{
    if i < s.len() && s[i] != ']' && s[i] != '\n' {
        lemma_header_end(s, i + 1);
    }
}

pub proof fn lemma_keyword_end(s: Seq<char>, i: int)
    ensures
        i <= keyword_end(s, i),
        i <= s.len() ==> keyword_end(s, i) <= s.len(),
    decreases s.len() - i,
{
    if i < s.len() && !stops_keyword(s[i]) {
        lemma_keyword_end(s, i + 1);
    }
}

pub proof fn lemma_string_body(s: Seq<char>, i: int)
    ensures
        string_body(s, i) matches Some((t, k)) ==> i < k <= s.len(),
    decreases s.len() - i,
{
    if i < s.len() && s[i] != '"' {
        if s[i] == '\\' {
            if i + 1 < s.len() {
                lemma_string_body(s, i + 2);
            }
        } else {
            lemma_string_body(s, i + 1);
        }
    }
}

pub proof fn lemma_fields_from(
    s: Seq<char>,
    i: int,
    fields: Seq<FieldView>,
    strings: Option<Seq<char>>,
    token: Seq<char>,
)
    ensures
        fields_from(s, i, fields, strings, token) matches Some((f, k)) ==> i < k <= s.len(),
    decreases s.len() - i,
{
    let j = blank_end(s, i);
    lemma_blank_end(s, i);
    if j < s.len() {
        if s[j] == '"' {
            lemma_string_body(s, j + 1);
            if let Some((t, k)) = string_body(s, j + 1) {
                lemma_fields_from(
                    s,
                    k,
                    fields,
                    Some(
                        match strings {
                            Some(p) => p + t,
                            None => t,
                        },
                    ),
                    token,
                );
            }
        } else if s[j] == ',' || s[j] == ';' {
            if s[j] == ',' {
                lemma_fields_from(s, j + 1, fields.push(field_of(strings, token)), None, seq![]);
            }
        } else {
            lemma_token_end(s, j + 1);
            let k = token_end(s, j + 1);
            lemma_fields_from(s, k, fields, strings, token + s.subrange(j, k));
        }
    }
}

pub proof fn lemma_entry_at(s: Seq<char>, i: int)
    ensures
        entry_at(s, i) matches Some((e, k)) ==> i < k <= s.len(),
{
    lemma_keyword_end(s, i);
    lemma_fields_from(s, keyword_end(s, i) + 1, seq![], None, seq![]);
}

proof fn lemma_line_step(s: Seq<char>, i: int)
    requires
        0 <= i < s.len(),
    ensures
        line_at(s, i + 1) == line_at(s, i) + if s[i] == '\n' { 1nat } else { 0nat },
{
    assert(s.take(i + 1).drop_last() =~= s.take(i));
}

proof fn lemma_newlines_bound(s: Seq<char>)
    ensures
        newlines(s) <= s.len(),
    decreases s.len(),
{
    if s.len() > 0 {
        lemma_newlines_bound(s.drop_last());
    }
}

// ---- The reader ----

/// A position in the file and the line it is on.
struct Cursor {
    chars: Vec<char>,
    pos: usize,
    line: usize,
}

impl Cursor {
    spec fn wf(&self) -> bool {
        &&& self.pos <= self.chars@.len()
        &&& self.line == line_at(self.chars@, self.pos as int)
        &&& self.chars@.len() < usize::MAX
    }

    fn next(&mut self) -> (r: Option<char>)
        requires
            old(self).wf(),
        ensures
            final(self).wf(),
            final(self).chars@ == old(self).chars@,
            old(self).pos < old(self).chars@.len() ==> r == Some(old(self).chars@[old(self).pos as int])
                && final(self).pos == old(self).pos + 1,
            old(self).pos >= old(self).chars@.len() ==> r is None && final(self).pos == old(self).pos,
    {
        if self.pos >= self.chars.len() {
            return None;
        }
        let c = self.chars[self.pos];
        proof {
            lemma_line_step(self.chars@, self.pos as int);
            lemma_newlines_bound(self.chars@.take(self.pos as int));
        }
        self.pos = self.pos + 1;
        if c == '\n' {
            self.line = self.line + 1;
        }
        Some(c)
    }

    fn peek(&self) -> (r: Option<char>)
        requires
            self.wf(),
        ensures
            self.pos < self.chars@.len() ==> r == Some(self.chars@[self.pos as int]),
            self.pos >= self.chars@.len() ==> r is None,
    {
        if self.pos < self.chars.len() {
            Some(self.chars[self.pos])
        } else {
            None
        }
    }

    fn skip_comment(&mut self)
        requires
            old(self).wf(),
        ensures
            final(self).wf(),
            final(self).chars@ == old(self).chars@,
            final(self).pos == comment_end(old(self).chars@, old(self).pos as int),
    {
        let ghost start = self.pos as int;
        loop
            invariant_except_break
                comment_end(self.chars@, self.pos as int) == comment_end(self.chars@, start),
            invariant
                self.wf(),
                self.chars@ == old(self).chars@,
            ensures
                self.wf(),
                self.chars@ == old(self).chars@,
                self.pos == comment_end(self.chars@, start),
            decreases self.chars@.len() - self.pos,
        {
            match self.next() {
                Some(c) => {
                    if c == '\n' {
                        break;
                    }
                },
                None => break,
            }
        }
    }

    fn skip_blank(&mut self)
        requires
            old(self).wf(),
        ensures
            final(self).wf(),
            final(self).chars@ == old(self).chars@,
            final(self).pos == blank_end(old(self).chars@, old(self).pos as int),
    {
        let ghost start = self.pos as int;
        loop
            invariant
                self.wf(),
                self.chars@ == old(self).chars@,
                blank_end(self.chars@, self.pos as int) == blank_end(self.chars@, start),
            ensures
                self.wf(),
                self.chars@ == old(self).chars@,
                self.pos == blank_end(self.chars@, start),
            decreases self.chars@.len() - self.pos,
        {
            match self.peek() {
                Some(c) => {
                    if c == '$' {
                        self.next();
                        proof {
                            lemma_comment_end(self.chars@, self.pos as int);
                        }
                        self.skip_comment();
                    } else if is_whitespace(c) {
                        self.next();
                    } else {
                        break;
                    }
                },
                None => break,
            }
        }
    }

    /// An EDS error at the current line.
    fn error(&self, msg: &str) -> (e: Error)
        ensures
            e matches Error::Eds(m) && m@ == line_message(self.line as nat, msg@),
    {
        let mut text = String::from_str("line ");
        push_dec(&mut text, self.line as u64);
        text.append(": ");
        text.append(msg);
        Error::Eds(text)
    }
}

/// The characters of an optional string.
pub open spec fn opt_chars(o: Option<String>) -> Option<Seq<char>> {
    match o {
        Some(x) => Some(x@),
        None => None,
    }
}

/// Reads the rest of a string whose opening quote has been read, appending
/// its contents to `acc`; false when the file ends first.
fn read_string(cur: &mut Cursor, acc: &mut String) -> (ok: bool)
    requires
        old(cur).wf(),
    ensures
        final(cur).wf(),
        final(cur).chars@ == old(cur).chars@,
        match string_body(old(cur).chars@, old(cur).pos as int) {
            None => !ok && final(cur).pos == final(cur).chars@.len(),
            Some((t, k)) => ok && final(acc)@ == old(acc)@ + t && final(cur).pos == k,
        },
{
    let ghost s = cur.chars@;
    let ghost start = cur.pos as int;
    let ghost mut read: Seq<char> = seq![];
    loop
        invariant
            cur.wf(),
            cur.chars@ == s,
            s == old(cur).chars@,
            start == old(cur).pos,
            acc@ == old(acc)@ + read,
            string_body(s, start) == match string_body(s, cur.pos as int) {
                None => None,
                Some((t, k)) => Some((read + t, k)),
            },
        decreases s.len() - cur.pos,
    {
        let ghost p = cur.pos as int;
        match cur.next() {
            None => return false,
            Some(c) => {
                if c == '"' {
                    assert(read + seq![] =~= read);
                    return true;
                } else if c == '\\' {
                    match cur.next() {
                        None => return false,
                        Some(d) => {
                            let x = if d == 'n' { '\n' } else { d };
                            push_char(acc, x);
                            proof {
                                if let Some((t, k)) = string_body(s, cur.pos as int) {
                                    assert(read + (seq![x] + t) =~= read.push(x) + t);
                                }
                                read = read.push(x);
                            }
                        },
                    }
                } else {
                    push_char(acc, c);
                    proof {
                        if let Some((t, k)) = string_body(s, cur.pos as int) {
                            assert(read + (seq![c] + t) =~= read.push(c) + t);
                        }
                        read = read.push(c);
                    }
                }
            },
        }
    }
}

/// The field made of `strings` and `token`.
fn make_field(strings: Option<String>, token: &Vec<char>) -> (f: Field)
    ensures
        f@ == field_of(opt_chars(strings), token@),
{
    match strings {
        Some(x) => Field::Str(x),
        None => {
            let (a, b) = trim_bounds(token.as_slice(), 0, token.len());
            assert(token@.subrange(0, token@.len() as int) =~= token@);
            if a == b {
                Field::Empty
            } else {
                Field::Token(string_of(vstd::slice::slice_subrange(token.as_slice(), a, b)))
            }
        },
    }
}

/// The string of `c[from..to]`, trimmed.
fn trimmed(c: &[char], from: usize, to: usize) -> (s: String)
    requires
        from <= to <= c@.len(),
    ensures
        s@ == trim(c@.subrange(from as int, to as int)),
{
    let (a, b) = trim_bounds(c, from, to);
    string_of(vstd::slice::slice_subrange(c, a, b))
}

/// Reads the entry whose keyword starts at the cursor, on line `line`.
fn parse_entry(cur: &mut Cursor, line: usize) -> (r: Result<Entry>)
    requires
        old(cur).wf(),
        line == line_at(old(cur).chars@, old(cur).pos as int),
    ensures
        final(cur).wf(),
        final(cur).chars@ == old(cur).chars@,
        match entry_at(old(cur).chars@, old(cur).pos as int) {
            None => r matches Err(Error::Eds(m)) && m@ == entry_error(old(cur).chars@, old(cur).pos as int),
            Some((e, k)) => r matches Ok(x) && x@ == e && final(cur).pos == k,
        },
{
    let ghost s = cur.chars@;
    let start = cur.pos;
    proof {
        lemma_keyword_end(s, start as int);
    }
    loop
        invariant_except_break
            start <= cur.pos <= keyword_end(s, start as int),
            keyword_end(s, cur.pos as int) == keyword_end(s, start as int),
        invariant
            cur.wf(),
            cur.chars@ == s,
            s == old(cur).chars@,
            start == old(cur).pos,
            line == line_at(s, start as int),
        ensures
            cur.wf(),
            cur.chars@ == s,
            keyword_end(s, start as int) < s.len(),
            s[keyword_end(s, start as int)] == '=',
            cur.pos == keyword_end(s, start as int) + 1,
        decreases s.len() - cur.pos,
    {
        match cur.next() {
            None => {
                let mut msg = String::from_str("expected '=' after '");
                msg.append(trimmed(cur.chars.as_slice(), start, cur.pos).as_str());
                msg.append("'");
                assert(cur.pos == s.len());
                return Err(cur.error(msg.as_str()));
            },
            Some(c) => {
                if c == '=' {
                    break;
                } else if c == ';' || c == '[' || c == '"' || c == ',' {
                    let ghost j = cur.pos - 1;
                    assert(keyword_end(s, j) == j);
                    let mut msg = String::from_str("expected '=' after '");
                    msg.append(trimmed(cur.chars.as_slice(), start, cur.pos - 1).as_str());
                    let ghost head = msg@;
                    msg.append("', found '");
                    push_char(&mut msg, c);
                    msg.append("'");
                    assert(msg@ =~= head + "', found '"@ + seq![s[j]] + "'"@);
                    return Err(cur.error(msg.as_str()));
                }
                proof {
                    lemma_keyword_end(s, cur.pos as int);
                }
            },
        }
    }
    let equals = cur.pos - 1;
    assert(equals == keyword_end(s, start as int));
    let keyword = trimmed(cur.chars.as_slice(), start, equals);
    let ghost first = cur.pos as int;
    let mut fields: Vec<Field> = Vec::new();
    let mut strings: Option<String> = None;
    let mut token: Vec<char> = Vec::new();
    assert(field_views(fields@) =~= Seq::<FieldView>::empty());
    loop
        invariant
            cur.wf(),
            cur.chars@ == s,
            keyword@ == trim(s.subrange(start as int, equals as int)),
            line == line_at(s, start as int),
            s == old(cur).chars@,
            start == old(cur).pos,
            equals == keyword_end(s, start as int),
            s[equals as int] == '=',
            start <= equals < s.len(),
            first == equals + 1,
            fields_from(s, cur.pos as int, field_views(fields@), opt_chars(strings), token@) == fields_from(
                s,
                first,
                seq![],
                None,
                seq![],
            ),
            fields_error(s, cur.pos as int, keyword@, line as nat) == fields_error(s, first, keyword@, line as nat),
        decreases s.len() - cur.pos,
    {
        let ghost i = cur.pos as int;
        cur.skip_blank();
        let ghost j = cur.pos as int;
        proof {
            lemma_blank_end(s, i);
        }
        match cur.next() {
            None => {
                let mut msg = String::from_str("line ");
                push_dec(&mut msg, line as u64);
                msg.append(": ");
                msg.append("entry '");
                msg.append(keyword.as_str());
                msg.append("' has no terminating ';'");
                assert(msg@ =~= line_message(line as nat, "entry '"@ + keyword@ + "' has no terminating ';'"@));
                return Err(Error::Eds(msg));
            },
            Some(c) => {
                if c == '"' {
                    let mut acc = match strings {
                        Some(x) => x,
                        None => String::new(),
                    };
                    let ghost before = acc@;
                    proof {
                        lemma_string_body(s, j + 1);
                    }
                    if !read_string(cur, &mut acc) {
                        return Err(cur.error("unterminated string"));
                    }
                    proof {
                        let (t, k) = string_body(s, j + 1)->Some_0;
                        assert(acc@ == before + t);
                        assert(Seq::<char>::empty() + t =~= t);
                    }
                    strings = Some(acc);
                } else if c == ',' || c == ';' {
                    let ghost sv = opt_chars(strings);
                    let ghost tv = token@;
                    let f = make_field(strings, &token);
                    strings = None;
                    let ghost old_fields = fields@;
                    fields.push(f);
                    assert(field_views(fields@) =~= field_views(old_fields).push(f@));
                    token = Vec::new();
                    assert(token@ =~= Seq::<char>::empty());
                    if c == ';' {
                        return Ok(Entry { keyword, fields, line });
                    }
                } else {
                    let ghost tok0 = token@;
                    token.push(c);
                    proof {
                        lemma_token_end(s, j + 1);
                    }
                    loop
                        invariant
                            cur.wf(),
                            cur.chars@ == s,
                            0 <= j,
                            j + 1 <= cur.pos <= token_end(s, j + 1),
                            token_end(s, cur.pos as int) == token_end(s, j + 1),
                            token@ == tok0 + s.subrange(j, cur.pos as int),
                        ensures
                            cur.wf(),
                            cur.chars@ == s,
                            cur.pos == token_end(s, j + 1),
                            token@ == tok0 + s.subrange(j, cur.pos as int),
                        decreases s.len() - cur.pos,
                    {
                        match cur.peek() {
                            Some(d) => {
                                if d == ',' || d == ';' || d == '"' || d == '$' || d == '\n' {
                                    break;
                                }
                                token.push(d);
                                cur.next();
                                proof {
                                    lemma_token_end(s, cur.pos as int);
                                }
                                assert(token@ =~= tok0 + s.subrange(j, cur.pos as int));
                            },
                            None => break,
                        }
                    }
                    assert(cur.pos as int == token_end(s, j + 1));
                }
            },
        }
    }
}

/// Parses an EDS file into its sections.
pub fn parse(text: &str) -> (r: Result<Vec<Section>>)
    requires
        text@.len() < usize::MAX,
    ensures
        match parse_sections(text@) {
            None => r matches Err(Error::Eds(m)) && m@ == parse_error(text@),
            Some(secs) => r matches Ok(v) && section_views(v@) == secs,
        },
{
    let chars = chars_of(text);
    let ghost s = text@;
    assert(s.take(0) =~= Seq::<char>::empty());
    let mut cur = Cursor { chars, pos: 0, line: 1 };
    let mut sections: Vec<Section> = Vec::new();
    assert(section_views(sections@) =~= Seq::<SectionView>::empty());
    loop
        invariant
            cur.wf(),
            cur.chars@ == s,
            s == text@,
            sections_from(s, cur.pos as int, section_views(sections@)) == parse_sections(s),
            parse_sections(s) is None ==> sections_error(s, cur.pos as int, section_views(sections@)) == parse_error(s),
        decreases s.len() - cur.pos,
    {
        let ghost i = cur.pos as int;
        cur.skip_blank();
        let ghost j = cur.pos as int;
        proof {
            lemma_blank_end(s, i);
        }
        match cur.peek() {
            None => {
                return Ok(sections);
            },
            Some(c) => {
                if c == '[' {
                    cur.next();
                    let name_start = cur.pos;
                    proof {
                        lemma_header_end(s, name_start as int);
                    }
                    loop
                        invariant_except_break
                            name_start <= cur.pos <= header_end(s, name_start as int),
                            header_end(s, cur.pos as int) == header_end(s, name_start as int),
                        invariant
                            cur.wf(),
                            cur.chars@ == s,
                            s == text@,
                            sections_from(s, i, section_views(sections@)) == parse_sections(s),
                            parse_sections(s) is None ==> sections_error(s, i, section_views(sections@)) == parse_error(s),
                            j == blank_end(s, i),
                            0 <= j < s.len(),
                            s[j] == '[',
                            name_start == j + 1,
                        ensures
                            cur.wf(),
                            cur.chars@ == s,
                            header_end(s, name_start as int) < s.len(),
                            s[header_end(s, name_start as int)] == ']',
                            cur.pos == header_end(s, name_start as int) + 1,
                        decreases s.len() - cur.pos,
                    {
                        match cur.next() {
                            None => {
                                assert(cur.pos == s.len());
                                return Err(cur.error("unterminated section header"));
                            },
                            Some(d) => {
                                if d == ']' {
                                    break;
                                } else if d == '\n' {
                                    assert(header_end(s, cur.pos - 1) == cur.pos - 1);
                                    return Err(cur.error("unterminated section header"));
                                }
                                proof {
                                    lemma_header_end(s, cur.pos as int);
                                }
                            },
                        }
                    }
                    let name = trimmed(cur.chars.as_slice(), name_start, cur.pos - 1);
                    let ghost old_secs = sections@;
                    sections.push(Section { name, entries: Vec::new() });
                    proof {
                        assert(entry_views(Seq::<Entry>::empty()) =~= Seq::<EntryView>::empty());
                        assert(section_views(sections@) =~= section_views(old_secs).push(
                            SectionView { name: trim(s.subrange(j + 1, header_end(s, j + 1))), entries: seq![] },
                        ));
                    }
                } else {
                    let line = cur.line;
                    proof {
                        lemma_entry_at(s, j);
                    }
                    let entry = match parse_entry(&mut cur, line) {
                        Ok(e) => e,
                        Err(e) => return Err(e),
                    };
                    if sections.len() == 0 {
                        let mut msg = String::from_str("entry '");
                        msg.append(entry.keyword.as_str());
                        msg.append("' before any section");
                        return Err(cur.error(msg.as_str()));
                    }
                    let ghost old_secs = sections@;
                    let mut last = sections.pop().unwrap();
                    let ghost old_entries = last.entries@;
                    let ghost e = entry@;
                    last.entries.push(entry);
                    sections.push(last);
                    proof {
                        assert(entry_views(last.entries@) =~= entry_views(old_entries).push(e));
                        assert(section_views(sections@) =~= add_entry(section_views(old_secs), e));
                    }
                }
            },
        }
    }
}

/// `parse_int`'s reading of `s`: trimmed, then `0x` or `0X` and hexadecimal
/// digits, or decimal digits, as `u64::from_str_radix` takes them.
pub open spec fn parse_int_spec(s: Seq<char>) -> Option<nat> {
    let t = trim(s);
    if t.len() >= 2 && t[0] == '0' && (t[1] == 'x' || t[1] == 'X') {
        parse_unsigned(t.skip(2), 16, u64::MAX as nat)
    } else {
        parse_unsigned(t, 10, u64::MAX as nat)
    }
}

/// Parses a decimal or `0x` hexadecimal integer.
pub fn parse_int(s: &str) -> (r: Option<u64>)
    ensures
        match parse_int_spec(s@) {
            None => r is None,
            Some(v) => r == Some(v as u64),
        },
{
    let c = chars_of(s);
    let (a, b) = trim_bounds(c.as_slice(), 0, c.len());
    assert(c@.subrange(0, c@.len() as int) =~= c@);
    let ghost t = c@.subrange(a as int, b as int);
    if b - a >= 2 && c[a] == '0' && (c[a + 1] == 'x' || c[a + 1] == 'X') {
        assert(c@.subrange(a + 2, b as int) =~= t.skip(2));
        parse_u64(c.as_slice(), a + 2, b, 16)
    } else {
        parse_u64(c.as_slice(), a, b, 10)
    }
}

} // verus!
