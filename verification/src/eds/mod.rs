//! Reader for EDS (Electronic Data Sheet) files.
//!
//! An EDS is the text file a vendor publishes for each EtherNet/IP device. It
//! lists the device's identity, parameters, assemblies (blocks of I/O data),
//! and the I/O connections it supports, including the connection path, data
//! sizes, and allowed packet intervals needed for a Forward Open.
//!
//! [`Eds::parse`] reads the whole file into [`Section`]s of [`Entry`]s. The
//! typed accessors cover the `[Device]`, `[Params]`, `[Assembly]`, and
//! `[Connection Manager]` sections; anything else can be read from the raw
//! sections.

mod parse;

pub use parse::{
    add_entry, blank_end, comment_end, entry_at, entry_error, entry_views, field_at, field_of, field_text, field_views, fields_from,
    fields_error, find_entry, header_end, keyword_end, line_at, line_message, newlines, opt_chars, parse, parse_error,
    parse_int, parse_int_spec,
    parse_sections, section_views, sections_error, sections_from, stops_keyword, stops_token, string_body, token_end, Entry,
    EntryView, Field, FieldView, Section, SectionView,
};

use vstd::prelude::*;
use vstd::string::*;

use crate::cip::connection_manager::{
    ConnectionConfig, ConnectionPath, ConnectionType, Direction, Priority, SizeType, TransportClass, Trigger,
};
use crate::cip::CipDataType;
use crate::error::{Error, Result};
use crate::text::{
    chars_of, dec, eq_ignore_case, eq_ignore_case_at, parse_u64, parse_unsigned, push_dec, str_eq_ignore_case,
};
use crate::wire::{lossy_text, utf8_lossy};

verus! {

/// A parsed EDS file.
#[derive(Debug, Clone, PartialEq, Eq)]
pub struct Eds {
    pub sections: Vec<Section>,
}

impl View for Eds {
    type V = Seq<SectionView>;

    open spec fn view(&self) -> Seq<SectionView> {
        section_views(self.sections@)
    }
}

/// The index of the first section named `name`, ignoring case.
pub open spec fn find_section(secs: Seq<SectionView>, name: Seq<char>) -> Option<int> {
    if exists|i: int| 0 <= i < secs.len() && eq_ignore_case(#[trigger] secs[i].name, name) {
        Some(
            choose|i: int|
                0 <= i < secs.len() && eq_ignore_case(#[trigger] secs[i].name, name) && forall|j: int|
                    0 <= j < i ==> !eq_ignore_case(#[trigger] secs[j].name, name),
        )
    } else {
        None
    }
}

/// The entry `keyword` of the section `section`: the first match of each,
/// ignoring case.
pub open spec fn lookup(secs: Seq<SectionView>, section: Seq<char>, keyword: Seq<char>) -> Option<EntryView> {
    match find_section(secs, section) {
        None => None,
        Some(i) => match find_entry(secs[i].entries, keyword) {
            None => None,
            Some(j) => Some(secs[i].entries[j]),
        },
    }
}

/// A numeric field: `Some(None)` when empty, `Some(Some(v))` for a number,
/// `None` for text that is not one.
pub open spec fn int_field_spec(e: EntryView, i: int) -> Option<Option<nat>> {
    match field_text(field_at(e, i)) {
        None => Some(None),
        Some(t) => match parse_int_spec(t) {
            Some(v) => Some(Some(v)),
            None => None,
        },
    }
}

/// The text of field `i`, or nothing for an empty field.
pub open spec fn text_or_empty(e: EntryView, i: int) -> Seq<char> {
    match field_text(field_at(e, i)) {
        Some(t) => t,
        None => seq![],
    }
}

/// `"Param12"` with prefix `"Param"` gives 12: the prefix, ignoring case,
/// then a `u32` in decimal.
pub open spec fn numbered_spec(text: Seq<char>, prefix: Seq<char>) -> Option<nat> {
    if text.len() >= prefix.len() && eq_ignore_case(text.take(prefix.len() as int), prefix) {
        parse_unsigned(text.skip(prefix.len() as int), 10, u32::MAX as nat)
    } else {
        None
    }
}

/// `"Param12"` with prefix `"Param"` gives 12; case is ignored.
pub fn numbered(text: &str, prefix: &str) -> (r: Option<u32>)
    ensures
        match numbered_spec(text@, prefix@) {
            None => r is None,
            Some(n) => r == Some(n as u32),
        },
{
    let t = chars_of(text);
    let p = chars_of(prefix);
    if !eq_ignore_case_at(t.as_slice(), 0, p.as_slice()) {
        return None;
    }
    assert(t@.subrange(0, p@.len() as int) =~= t@.take(p@.len() as int));
    assert(t@.subrange(p@.len() as int, t@.len() as int) =~= t@.skip(p@.len() as int));
    match parse_u64(t.as_slice(), p.len(), t.len(), 10) {
        Some(v) => if v <= 0xFFFF_FFFF {
            Some(v as u32)
        } else {
            None
        },
        None => None,
    }
}

/// Reads field `i` of `e` as an integer: nothing for an empty field, an
/// error for text that is not a number.
pub fn int_field(e: &Entry, i: usize) -> (r: Result<Option<u64>>)
    ensures
        match int_field_spec(e@, i as int) {
            None => r matches Err(err) && err is Eds,
            Some(None) => r matches Ok(None),
            Some(Some(v)) => r matches Ok(Some(x)) && x == v,
        },
{
    let f = e.field(i);
    match f.text() {
        None => Ok(None),
        Some(t) => match parse_int(t) {
            Some(v) => Ok(Some(v)),
            None => {
                let mut msg = String::from_str("line ");
                push_dec(&mut msg, e.line as u64);
                msg.append(": '");
                msg.append(e.keyword.as_str());
                msg.append("' field ");
                push_dec(&mut msg, i as u64);
                msg.append(" is not a number: '");
                msg.append(t);
                msg.append("'");
                Err(Error::Eds(msg))
            },
        },
    }
}

fn eds_error(parts: &[&str]) -> (e: Error)
    ensures
        e is Eds,
{
    let mut msg = String::new();
    let mut i: usize = 0;
    while i < parts.len()
        decreases parts.len() - i,
    {
        msg.append(parts[i]);
        i = i + 1;
    }
    Error::Eds(msg)
}

/// The `[Device]` section.
#[derive(Debug, Clone, PartialEq, Eq)]
pub struct EdsDevice {
    pub vendor_id: u16,
    pub vendor_name: String,
    pub product_type: u16,
    pub product_code: u16,
    pub major_revision: u8,
    pub minor_revision: u8,
    pub product_name: String,
    pub catalog: String,
}

/// A number from `[Device]`: the entry must be there and its first field a number.
#[verifier::opaque]
pub open spec fn device_int(secs: Seq<SectionView>, key: Seq<char>) -> Option<u64> {
    match lookup(secs, "Device"@, key) {
        None => None,
        Some(e) => match int_field_spec(e, 0) {
            Some(Some(v)) => Some(v as u64),
            _ => None,
        },
    }
}

/// Text from `[Device]`: the entry must be there; its first field, or
/// nothing if that is empty.
#[verifier::opaque]
pub open spec fn device_text(secs: Seq<SectionView>, key: Seq<char>) -> Option<Seq<char>> {
    match lookup(secs, "Device"@, key) {
        None => None,
        Some(e) => Some(text_or_empty(e, 0)),
    }
}

/// `ParamN`.
pub open spec fn param_keyword(n: nat) -> Seq<char> {
    "Param"@ + dec(n)
}

/// `AssemN`.
pub open spec fn assembly_keyword(n: nat) -> Seq<char> {
    "Assem"@ + dec(n)
}

/// `ConnectionN`.
pub open spec fn connection_keyword(n: nat) -> Seq<char> {
    "Connection"@ + dec(n)
}

/// A `ParamN` entry. Limits and default are kept as text since their type
/// depends on `data_type`.
#[derive(Debug, Clone, PartialEq, Eq)]
pub struct EdsParam {
    pub number: u32,
    pub data_type: CipDataType,
    pub data_size: usize,
    pub name: String,
    pub units: String,
    pub help: String,
    pub min: Option<String>,
    pub max: Option<String>,
    pub default: Option<String>,
}

/// The entry of `ParamN` can be read: it is there, and its data type (field
/// 4) and data size (field 5) are numbers or empty.
pub open spec fn param_ok(secs: Seq<SectionView>, n: nat) -> bool {
    match lookup(secs, "Params"@, param_keyword(n)) {
        None => false,
        Some(e) => int_field_spec(e, 4) is Some && int_field_spec(e, 5) is Some,
    }
}

/// The entry of `ParamN`.
pub open spec fn param_entry(secs: Seq<SectionView>, n: nat) -> EntryView {
    lookup(secs, "Params"@, param_keyword(n))->Some_0
}

pub open spec fn or_zero(v: Option<Option<nat>>) -> nat {
    match v {
        Some(Some(x)) => x,
        _ => 0,
    }
}

impl EdsParam {
    /// `p` is parameter `n` read from its entry `e`: data type and size (0
    /// when empty), name, units, and help (nothing when empty), and the
    /// minimum, maximum, and default as text.
    pub open spec fn read_from(self, n: nat, e: EntryView) -> bool {
        &&& self.number == n
        &&& self.data_type == CipDataType(or_zero(int_field_spec(e, 4)) as u8)
        &&& self.data_size == or_zero(int_field_spec(e, 5)) as usize
        &&& self.name@ == text_or_empty(e, 6)
        &&& self.units@ == text_or_empty(e, 7)
        &&& self.help@ == text_or_empty(e, 8)
        &&& opt_chars(self.min) == field_text(field_at(e, 9))
        &&& opt_chars(self.max) == field_text(field_at(e, 10))
        &&& opt_chars(self.default) == field_text(field_at(e, 11))
    }

    /// The default value as an integer, if it is one.
    pub fn default_int(&self) -> (r: Option<u64>)
        ensures
            match self.default {
                None => r is None,
                Some(t) => match parse_int_spec(t@) {
                    None => r is None,
                    Some(v) => r == Some(v as u64),
                },
            },
    {
        match &self.default {
            None => None,
            Some(t) => parse_int(t.as_str()),
        }
    }
}

/// An `AssemN` entry.
#[derive(Debug, Clone, PartialEq, Eq)]
pub struct EdsAssembly {
    pub number: u32,
    pub name: String,
    /// Bytes; from the size field, or the sum of the member sizes if it's empty.
    pub size: usize,
}

/// The sum of the member sizes (bits) of an assembly: fields `i`, `i + 2`,
/// ... that are numbers; others count nothing.
pub open spec fn member_bits(fields: Seq<FieldView>, i: int) -> nat
    decreases fields.len() + 1 - i,
{
    if i >= fields.len() {
        0
    } else {
        (match field_text(fields[i]) {
            Some(t) => match parse_int_spec(t) {
                Some(v) => v,
                None => 0,
            },
            None => 0,
        }) + member_bits(fields, i + 2)
    }
}

/// The entry of `AssemN` can be read: it is there, its size field (2) is a
/// number or empty, and its member sizes add up to at most `u64::MAX`.
pub open spec fn assembly_ok(secs: Seq<SectionView>, n: nat) -> bool {
    match lookup(secs, "Assembly"@, assembly_keyword(n)) {
        None => false,
        Some(e) => int_field_spec(e, 2) is Some && member_bits(e.fields, 6) <= u64::MAX,
    }
}

/// The size in bytes of assembly entry `e`: its size field, else its member
/// bits rounded up to bytes.
pub open spec fn assembly_size(e: EntryView) -> usize {
    match int_field_spec(e, 2) {
        Some(Some(b)) => b as usize,
        _ => ((member_bits(e.fields, 6) + 7) / 8) as usize,
    }
}

impl Eds {
    /// Parses the text of an EDS file.
    pub fn parse(text: &str) -> (r: Result<Self>)
        requires
            text@.len() < usize::MAX,
        ensures
            match parse_sections(text@) {
                None => r matches Err(Error::Eds(m)) && m@ == parse_error(text@),
                Some(secs) => r matches Ok(eds) && eds@ == secs,
            },
    {
        match parse(text) {
            Ok(sections) => Ok(Self { sections }),
            Err(e) => Err(e),
        }
    }

    /// Parses the bytes of an EDS file. Bytes that aren't valid UTF-8 (EDS
    /// files are often Latin-1) are replaced rather than rejected.
    pub fn parse_bytes(data: &[u8]) -> (r: Result<Self>)
        ensures
            lossy_text(data@).len() < usize::MAX ==> match parse_sections(lossy_text(data@)) {
                None => r matches Err(Error::Eds(m)) && m@ == parse_error(lossy_text(data@)),
                Some(secs) => r matches Ok(eds) && eds@ == secs,
            },
            lossy_text(data@).len() >= usize::MAX ==> (r matches Err(e) && e is Eds),
            vstd::utf8::valid_utf8(data@) && vstd::utf8::decode_utf8(data@).len() < usize::MAX ==> match parse_sections(
                vstd::utf8::decode_utf8(data@),
            ) {
                None => r matches Err(e) && e is Eds,
                Some(secs) => r matches Ok(eds) && eds@ == secs,
            },
    {
        let text = utf8_lossy(data);
        let chars = chars_of(text.as_str());
        if chars.len() == usize::MAX {
            return Err(Error::Eds(String::from_str("file is too long")));
        }
        Self::parse(text.as_str())
    }

    /// Finds a section by name, ignoring case.
    pub fn section(&self, name: &str) -> (r: Option<&Section>)
        ensures
            match find_section(self@, name@) {
                None => r is None,
                Some(i) => r matches Some(s) && s@ == self@[i],
            },
    {
        let mut i: usize = 0;
        while i < self.sections.len()
            invariant
                i <= self.sections@.len(),
                forall|j: int| 0 <= j < i ==> !eq_ignore_case(#[trigger] self@[j].name, name@),
            decreases self.sections@.len() - i,
        {
            if str_eq_ignore_case(self.sections[i].name.as_str(), name) {
                proof {
                    let k = choose|k: int|
                        0 <= k < self@.len() && eq_ignore_case(#[trigger] self@[k].name, name@) && forall|j: int|
                            0 <= j < k ==> !eq_ignore_case(#[trigger] self@[j].name, name@);
                    assert(self@[i as int].name == self.sections@[i as int].name@);
                    if k < i {
                    } else if k > i {
                        assert(!eq_ignore_case(self@[i as int].name, name@));
                    }
                }
                return Some(&self.sections[i]);
            }
            i = i + 1;
        }
        None
    }

    /// The entry `keyword` of the section `section`; an error naming both when
    /// either is missing.
    fn entry(&self, section: &str, keyword: &str) -> (r: Result<&Entry>)
        ensures
            match lookup(self@, section@, keyword@) {
                None => r matches Err(e) && e is Eds,
                Some(e) => r matches Ok(x) && x@ == e,
            },
    {
        match self.section(section) {
            None => {},
            Some(s) => match s.get(keyword) {
                None => {},
                Some(e) => return Ok(e),
            },
        }
        Err(eds_error(&["[", section, "] has no entry '", keyword, "'"]))
    }
}

/// The `[Device]` section can be read: its numbers (vendor code, product
/// type and code, revisions) and its vendor and product names are there.
pub open spec fn device_ok(secs: Seq<SectionView>) -> bool {
    &&& device_int(secs, "VendCode"@) is Some
    &&& device_text(secs, "VendName"@) is Some
    &&& device_int(secs, "ProdType"@) is Some
    &&& device_int(secs, "ProdCode"@) is Some
    &&& device_int(secs, "MajRev"@) is Some
    &&& device_int(secs, "MinRev"@) is Some
    &&& device_text(secs, "ProdName"@) is Some
}

impl EdsDevice {
    /// The device read from `secs`: the numbers cut to their fields' widths;
    /// the catalog number empty when it is missing.
    pub open spec fn read_from(self, secs: Seq<SectionView>) -> bool {
        &&& self.vendor_id == device_int(secs, "VendCode"@)->Some_0 as u16
        &&& self.vendor_name@ == device_text(secs, "VendName"@)->Some_0
        &&& self.product_type == device_int(secs, "ProdType"@)->Some_0 as u16
        &&& self.product_code == device_int(secs, "ProdCode"@)->Some_0 as u16
        &&& self.major_revision == device_int(secs, "MajRev"@)->Some_0 as u8
        &&& self.minor_revision == device_int(secs, "MinRev"@)->Some_0 as u8
        &&& self.product_name@ == device_text(secs, "ProdName"@)->Some_0
        &&& self.catalog@ == match device_text(secs, "Catalog"@) {
            Some(t) => t,
            None => seq![],
        }
    }
}

/// The parameter named by the text of a field, if it is a `ParamN` reference.
pub open spec fn param_ref(t: Seq<char>) -> Option<nat> {
    numbered_spec(t, "Param"@)
}

/// The assembly named by field `i`, if it is an `AssemN` reference.
pub open spec fn assembly_ref(e: EntryView, i: int) -> Option<u32> {
    match field_text(field_at(e, i)) {
        None => None,
        Some(t) => match numbered_spec(t, "Assem"@) {
            Some(n) => Some(n as u32),
            None => None,
        },
    }
}

/// Text read as an integer cut to 32 bits.
pub open spec fn int_u32(t: Option<Seq<char>>) -> Option<u32> {
    match t {
        None => None,
        Some(x) => match parse_int_spec(x) {
            Some(v) => Some(v as u32),
            None => None,
        },
    }
}

/// The default of parameter entry `e` as an integer, if it is one.
pub open spec fn param_default(e: EntryView) -> Option<nat> {
    match field_text(field_at(e, 11)) {
        None => None,
        Some(t) => parse_int_spec(t),
    }
}

impl Eds {
    fn device_int_of(&self, key: &str) -> (r: Result<u64>)
        ensures
            match device_int(self@, key@) {
                None => r matches Err(e) && e is Eds,
                Some(v) => r == Ok::<u64, Error>(v),
            },
    {
        reveal(device_int);
        let e = match self.entry("Device", key) {
            Ok(e) => e,
            Err(err) => return Err(err),
        };
        match int_field(e, 0) {
            Ok(Some(v)) => Ok(v),
            Ok(None) => {
                let mut msg = String::from_str("line ");
                push_dec(&mut msg, e.line as u64);
                msg.append(": ");
                msg.append(key);
                msg.append(" is empty");
                Err(Error::Eds(msg))
            },
            Err(err) => Err(err),
        }
    }

    fn device_text_of(&self, key: &str) -> (r: Result<String>)
        ensures
            match device_text(self@, key@) {
                None => r matches Err(e) && e is Eds,
                Some(t) => r matches Ok(s) && s@ == t,
            },
    {
        reveal(device_text);
        let e = match self.entry("Device", key) {
            Ok(e) => e,
            Err(err) => return Err(err),
        };
        let f = e.field(0);
        match f.text() {
            Some(t) => Ok(String::from_str(t)),
            None => Ok(String::new()),
        }
    }

    /// The `[Device]` section.
    pub fn device(&self) -> (r: Result<EdsDevice>)
        ensures
            r is Ok <==> device_ok(self@),
            r matches Ok(d) ==> d.read_from(self@),
            r matches Err(e) ==> e is Eds,
    {
        let vendor_id = match self.device_int_of("VendCode") {
            Ok(v) => v as u16,
            Err(e) => return Err(e),
        };
        let vendor_name = match self.device_text_of("VendName") {
            Ok(v) => v,
            Err(e) => return Err(e),
        };
        let product_type = match self.device_int_of("ProdType") {
            Ok(v) => v as u16,
            Err(e) => return Err(e),
        };
        let product_code = match self.device_int_of("ProdCode") {
            Ok(v) => v as u16,
            Err(e) => return Err(e),
        };
        let major_revision = match self.device_int_of("MajRev") {
            Ok(v) => v as u8,
            Err(e) => return Err(e),
        };
        let minor_revision = match self.device_int_of("MinRev") {
            Ok(v) => v as u8,
            Err(e) => return Err(e),
        };
        let product_name = match self.device_text_of("ProdName") {
            Ok(v) => v,
            Err(e) => return Err(e),
        };
        let catalog = match self.device_text_of("Catalog") {
            Ok(v) => v,
            Err(_) => String::new(),
        };
        Ok(EdsDevice {
            vendor_id,
            vendor_name,
            product_type,
            product_code,
            major_revision,
            minor_revision,
            product_name,
            catalog,
        })
    }

    /// `ParamN` from `[Params]`.
    pub fn param(&self, number: u32) -> (r: Result<EdsParam>)
        ensures
            r is Ok <==> param_ok(self@, number as nat),
            r matches Ok(p) ==> p.read_from(number as nat, param_entry(self@, number as nat)),
            r matches Err(e) ==> e is Eds,
    {
        let mut keyword = String::from_str("Param");
        push_dec(&mut keyword, number as u64);
        let e = match self.entry("Params", keyword.as_str()) {
            Ok(e) => e,
            Err(err) => return Err(err),
        };
        let data_type = match int_field(e, 4) {
            Ok(v) => CipDataType(
                match v {
                    Some(x) => x as u8,
                    None => 0,
                },
            ),
            Err(err) => return Err(err),
        };
        let data_size = match int_field(e, 5) {
            Ok(v) => match v {
                Some(x) => x as usize,
                None => 0,
            },
            Err(err) => return Err(err),
        };
        Ok(EdsParam {
            number,
            data_type,
            data_size,
            name: text_field(e, 6),
            units: text_field(e, 7),
            help: text_field(e, 8),
            min: opt_text_field(e, 9),
            max: opt_text_field(e, 10),
            default: opt_text_field(e, 11),
        })
    }

    /// `AssemN` from `[Assembly]`.
    pub fn assembly(&self, number: u32) -> (r: Result<EdsAssembly>)
        ensures
            r is Ok <==> assembly_ok(self@, number as nat),
            r matches Ok(a) ==> {
                let e = lookup(self@, "Assembly"@, assembly_keyword(number as nat))->Some_0;
                &&& a.number == number
                &&& a.name@ == text_or_empty(e, 0)
                &&& a.size == assembly_size(e)
            },
            r matches Err(e) ==> e is Eds,
    {
        let mut keyword = String::from_str("Assem");
        push_dec(&mut keyword, number as u64);
        let e = match self.entry("Assembly", keyword.as_str()) {
            Ok(e) => e,
            Err(err) => return Err(err),
        };
        // Fields 6.. are (size in bits, member) pairs.
        let ghost fields = e@.fields;
        assert(lookup(self@, "Assembly"@, assembly_keyword(number as nat)) == Some(e@));
        let mut bits: u64 = 0;
        let mut i: usize = 6;
        while i < e.fields.len()
            invariant
                6 <= i,
                i <= e.fields@.len() || i == 6,
                fields == e@.fields,
                lookup(self@, "Assembly"@, assembly_keyword(number as nat)) == Some(e@),
                bits + member_bits(fields, i as int) == member_bits(fields, 6),
            decreases e.fields@.len() - i,
        {
            let f = e.field(i);
            let v: u64 = match f.text() {
                Some(t) => match parse_int(t) {
                    Some(v) => v,
                    None => 0,
                },
                None => 0,
            };
            let next = if e.fields.len() - i > 2 { i + 2 } else { e.fields.len() };
            assert(member_bits(fields, next as int) == member_bits(fields, i + 2));
            assert(member_bits(fields, i as int) == v + member_bits(fields, i + 2));
            match bits.checked_add(v) {
                Some(b) => bits = b,
                None => {
                    return Err(eds_error(&["assembly member sizes overflow"]));
                },
            }
            i = next;
        }
        let size = match int_field(e, 2) {
            Ok(Some(bytes)) => bytes as usize,
            Ok(None) => (bits / 8 + if bits % 8 != 0 { 1 } else { 0 }) as usize,
            Err(err) => return Err(err),
        };
        Ok(EdsAssembly { number, name: text_field(e, 0), size })
    }
}

/// The text of field `i`, or nothing.
fn text_field(e: &Entry, i: usize) -> (s: String)
    ensures
        s@ == text_or_empty(e@, i as int),
{
    let f = e.field(i);
    match f.text() {
        Some(t) => String::from_str(t),
        None => String::new(),
    }
}

/// The text of field `i`, if it has any.
fn opt_text_field(e: &Entry, i: usize) -> (s: Option<String>)
    ensures
        opt_chars(s) == field_text(field_at(e@, i as int)),
{
    let f = e.field(i);
    match f.text() {
        Some(t) => Some(String::from_str(t)),
        None => None,
    }
}

/// Allowed packet interval, microseconds.
#[derive(Debug, Clone, Copy, PartialEq, Eq, Structural)]
pub struct EdsRpi {
    pub min: Option<u32>,
    pub max: Option<u32>,
    pub default: Option<u32>,
}

/// One direction (O->T or T->O) of a connection.
#[derive(Debug, Clone, Copy, PartialEq, Eq, Structural)]
pub struct EdsDirection {
    pub rpi: Option<EdsRpi>,
    /// Application data size in bytes; 0 for a heartbeat.
    pub size: usize,
    /// The `AssemN` the data is described by, if any.
    pub assembly: Option<u32>,
}

/// A `ConnectionN` entry.
#[derive(Debug, Clone, PartialEq, Eq)]
pub struct EdsConnection {
    pub number: u32,
    pub name: String,
    pub help: String,
    /// Bits 0-15 supported transport classes, 16-18 triggers (cyclic, change
    /// of state, application), 24-27 transport types (listen-only, input-only,
    /// exclusive owner, redundant owner).
    pub trigger_transport: u32,
    /// Bits 0-3 fixed/variable size support (O->T fixed, O->T variable, T->O
    /// fixed, T->O variable), 8-10 and 12-14 O->T and T->O real-time format,
    /// 16-18 and 20-22 connection types (null, multicast, point-to-point),
    /// 24-26 and 28-30 priorities (low, high, scheduled).
    pub connection_params: u32,
    pub o2t: EdsDirection,
    pub t2o: EdsDirection,
    /// Configuration assembly. The EDS doesn't give its data; see
    /// [`ConnectionConfig::config_data`].
    pub config_assembly: Option<u32>,
    pub path: ConnectionPath,
}

/// The packet interval of a direction whose fields start at `first`: from
/// the limits and default of a `ParamN` it names, or the number it gives as
/// minimum, maximum, and default; none for an empty field.
pub open spec fn direction_rpi(secs: Seq<SectionView>, e: EntryView, first: int) -> Option<EdsRpi> {
    match field_text(field_at(e, first)) {
        None => None,
        Some(t) => Some(
            match param_ref(t) {
                Some(n) => {
                    let pe = param_entry(secs, n);
                    EdsRpi {
                        min: int_u32(field_text(field_at(pe, 9))),
                        max: int_u32(field_text(field_at(pe, 10))),
                        default: int_u32(field_text(field_at(pe, 11))),
                    }
                },
                None => {
                    let v = int_u32(Some(t));
                    EdsRpi { min: v, max: v, default: v }
                },
            },
        ),
    }
}

/// A direction's fields can be read: a parameter its interval or size names
/// is there; a size that is not a reference is a number; without a size, an
/// assembly it names is there.
pub open spec fn direction_ok(secs: Seq<SectionView>, e: EntryView, first: int) -> bool {
    &&& match field_text(field_at(e, first)) {
        Some(t) => match param_ref(t) {
            Some(n) => param_ok(secs, n),
            None => true,
        },
        None => true,
    }
    &&& match field_text(field_at(e, first + 1)) {
        Some(t) => match param_ref(t) {
            Some(n) => param_ok(secs, n),
            None => parse_int_spec(t) is Some,
        },
        None => match assembly_ref(e, first + 2) {
            Some(n) => assembly_ok(secs, n as nat),
            None => true,
        },
    }
}

/// The data size of a direction: the default of a `ParamN` it names (0 if it
/// has none), the number it gives, or else the size of the assembly it names
/// (0 if none).
pub open spec fn direction_size(secs: Seq<SectionView>, e: EntryView, first: int) -> usize {
    match field_text(field_at(e, first + 1)) {
        Some(t) => match param_ref(t) {
            Some(n) => match param_default(param_entry(secs, n)) {
                Some(v) => (v as u64) as usize,
                None => 0,
            },
            None => (parse_int_spec(t)->Some_0 as u64) as usize,
        },
        None => match assembly_ref(e, first + 2) {
            Some(n) => assembly_size(lookup(secs, "Assembly"@, assembly_keyword(n as nat))->Some_0),
            None => 0,
        },
    }
}

/// The direction whose fields (interval, size, format) start at `first`.
pub open spec fn direction_of(secs: Seq<SectionView>, e: EntryView, first: int) -> EdsDirection {
    EdsDirection {
        rpi: direction_rpi(secs, e, first),
        size: direction_size(secs, e, first),
        assembly: assembly_ref(e, first + 2),
    }
}

/// `t` without its leading `[`s and then its trailing `]`s.
pub open spec fn strip_brackets(t: Seq<char>) -> Seq<char>
    decreases t.len(),
{
    if t.len() > 0 && t[0] == '[' {
        strip_brackets(t.skip(1))
    } else {
        strip_closing(t)
    }
}

pub open spec fn strip_closing(t: Seq<char>) -> Seq<char>
    decreases t.len(),
{
    if t.len() > 0 && t.last() == ']' {
        strip_closing(t.drop_last())
    } else {
        t
    }
}

/// `n` limited to 1 to 8.
pub open spec fn clamp_size(n: usize) -> int {
    if n < 1 {
        1
    } else if n > 8 {
        8
    } else {
        n as int
    }
}

/// The bytes of one word of a path: for a `ParamN` or `[ParamN]` reference,
/// the parameter's default value, little-endian, in as many bytes as its
/// data size (1 to 8); else the word as a hexadecimal byte.
pub open spec fn word_bytes(secs: Seq<SectionView>, w: Seq<char>) -> Option<Seq<u8>> {
    match param_ref(strip_brackets(w)) {
        Some(n) => if !param_ok(secs, n) {
            None
        } else {
            let pe = param_entry(secs, n);
            match param_default(pe) {
                None => None,
                Some(v) => Some(crate::wire::le64(v as u64).take(clamp_size(or_zero(int_field_spec(pe, 5)) as usize))),
            }
        },
        None => match parse_unsigned(w, 16, 255) {
            Some(b) => Some(seq![b as u8]),
            None => None,
        },
    }
}

/// The bytes of the words of a path from `i` on.
pub open spec fn path_from(secs: Seq<SectionView>, s: Seq<char>, i: int) -> Option<Seq<u8>>
    decreases s.len() - i,
{
    let a = crate::text::white_end(s, i);
    proof {
        crate::text::lemma_white_end_at(s, i);
    }
    if a >= s.len() {
        Some(seq![])
    } else {
        proof {
            crate::text::lemma_word_end(s, a + 1);
        }
        let b = crate::text::word_end(s, a + 1);
        match word_bytes(secs, s.subrange(a, b)) {
            None => None,
            Some(bs) => match path_from(secs, s, b) {
                None => None,
                Some(rest) => Some(bs + rest),
            },
        }
    }
}

/// The connection entry `e` can be read: its trigger/transport and
/// connection parameter fields are numbers, both directions can be read,
/// and so can its path.
pub open spec fn connection_ok(secs: Seq<SectionView>, e: EntryView) -> bool {
    &&& int_field_spec(e, 0) matches Some(Some(_))
    &&& int_field_spec(e, 1) matches Some(Some(_))
    &&& direction_ok(secs, e, 2)
    &&& direction_ok(secs, e, 5)
    &&& path_from(secs, text_or_empty(e, 14), 0) is Some
}

impl EdsConnection {
    /// `self` is connection `n` read from its entry `e`.
    pub open spec fn read_from(self, secs: Seq<SectionView>, n: nat, e: EntryView) -> bool {
        &&& self.number == n
        &&& self.name@ == text_or_empty(e, 12)
        &&& self.help@ == text_or_empty(e, 13)
        &&& self.trigger_transport == (or_zero(int_field_spec(e, 0)) as u64) as u32
        &&& self.connection_params == (or_zero(int_field_spec(e, 1)) as u64) as u32
        &&& self.o2t == direction_of(secs, e, 2)
        &&& self.t2o == direction_of(secs, e, 5)
        &&& self.config_assembly == match assembly_ref(e, 9) {
            Some(a) => Some(a),
            None => assembly_ref(e, 11),
        }
        &&& self.path@ == path_from(secs, text_or_empty(e, 14), 0)->Some_0
    }
}

/// The bounds of `w` without its leading `[`s and then its trailing `]`s.
fn bracket_bounds(w: &[char]) -> (r: (usize, usize))
    ensures
        r.0 <= r.1 <= w@.len(),
        w@.subrange(r.0 as int, r.1 as int) == strip_brackets(w@),
{
    let mut a: usize = 0;
    assert(w@.skip(0) =~= w@);
    while a < w.len() && w[a] == '['
        invariant
            a <= w@.len(),
            strip_brackets(w@.skip(a as int)) == strip_brackets(w@),
        decreases w@.len() - a,
    {
        assert(w@.skip(a as int).skip(1) =~= w@.skip(a + 1));
        a = a + 1;
    }
    let mut b: usize = w.len();
    assert(w@.subrange(a as int, b as int) =~= w@.skip(a as int));
    while b > a && w[b - 1] == ']'
        invariant
            a <= b <= w@.len(),
            strip_closing(w@.subrange(a as int, b as int)) == strip_brackets(w@),
        decreases b,
    {
        assert(w@.subrange(a as int, b as int).drop_last() =~= w@.subrange(a as int, b - 1));
        b = b - 1;
    }
    assert(strip_closing(w@.subrange(a as int, b as int)) == w@.subrange(a as int, b as int));
    (a, b)
}

/// The assembly a field names, as `numbered` reads it.
fn assembly_field(e: &Entry, i: usize) -> (r: Option<u32>)
    ensures
        r == assembly_ref(e@, i as int),
{
    let f = e.field(i);
    match f.text() {
        None => None,
        Some(t) => numbered(t, "Assem"),
    }
}

/// An integer read from text, cut to 32 bits.
fn u32_of(t: &Option<String>) -> (r: Option<u32>)
    ensures
        r == int_u32(opt_chars(*t)),
{
    match t {
        None => None,
        Some(x) => match parse_int(x.as_str()) {
            Some(v) => Some(v as u32),
            None => None,
        },
    }
}

/// The little-endian bytes of `v`.
fn le_bytes(v: u64) -> (b: Vec<u8>)
    ensures
        b@ == crate::wire::le64(v),
{
    let mut b: Vec<u8> = Vec::new();
    crate::wire::put_u32_le(&mut b, (v % 0x1_0000_0000) as u32);
    crate::wire::put_u32_le(&mut b, (v / 0x1_0000_0000) as u32);
    assert(b@ =~= crate::wire::le64(v));
    b
}

impl Eds {
    /// The RPI, size, and format fields starting at `first`.
    fn direction(&self, e: &Entry, first: usize) -> (r: Result<EdsDirection>)
        requires
            first + 2 <= usize::MAX,
        ensures
            r is Ok <==> direction_ok(self@, e@, first as int),
            r matches Ok(d) ==> d == direction_of(self@, e@, first as int),
            r matches Err(err) ==> err is Eds,
    {
        let f0 = e.field(first);
        let rpi = match f0.text() {
            None => None,
            Some(t) => Some(
                match numbered(t, "Param") {
                    Some(n) => {
                        let p = match self.param(n) {
                            Ok(p) => p,
                            Err(err) => return Err(err),
                        };
                        EdsRpi { min: u32_of(&p.min), max: u32_of(&p.max), default: u32_of(&p.default) }
                    },
                    None => {
                        let v = match parse_int(t) {
                            Some(v) => Some(v as u32),
                            None => None,
                        };
                        EdsRpi { min: v, max: v, default: v }
                    },
                },
            ),
        };
        let assembly = assembly_field(e, first + 2);
        let f1 = e.field(first + 1);
        let size = match f1.text() {
            Some(t) => match numbered(t, "Param") {
                Some(n) => {
                    let p = match self.param(n) {
                        Ok(p) => p,
                        Err(err) => return Err(err),
                    };
                    match p.default_int() {
                        Some(v) => v as usize,
                        None => 0,
                    }
                },
                None => match parse_int(t) {
                    Some(v) => v as usize,
                    None => {
                        let mut msg = String::from_str("line ");
                        push_dec(&mut msg, e.line as u64);
                        msg.append(": bad connection size '");
                        msg.append(t);
                        msg.append("'");
                        return Err(Error::Eds(msg));
                    },
                },
            },
            None => match assembly {
                Some(n) => match self.assembly(n) {
                    Ok(a) => a.size,
                    Err(err) => return Err(err),
                },
                None => 0,
            },
        };
        Ok(EdsDirection { rpi, size, assembly })
    }

    /// The bytes of one word of a path.
    #[verifier::rlimit(40)]
    fn word_bytes(&self, w: &[char]) -> (r: Result<Vec<u8>>)
        ensures
            match word_bytes(self@, w@) {
                None => r matches Err(e) && e is Eds,
                Some(b) => r matches Ok(v) && v@ == b,
            },
    {
        let (a, b) = bracket_bounds(w);
        let name = crate::text::string_of(vstd::slice::slice_subrange(w, a, b));
        match numbered(name.as_str(), "Param") {
            Some(n) => {
                let p = match self.param(n) {
                    Ok(p) => p,
                    Err(err) => return Err(err),
                };
                let value = match p.default_int() {
                    Some(v) => v,
                    None => {
                        let mut msg = String::from_str("Param");
                        push_dec(&mut msg, n as u64);
                        msg.append(" in path has no default value");
                        return Err(Error::Eds(msg));
                    },
                };
                let count = if p.data_size < 1 {
                    1
                } else if p.data_size > 8 {
                    8
                } else {
                    p.data_size
                };
                let all = le_bytes(value);
                let bytes = vstd::slice::slice_to_vec(vstd::slice::slice_subrange(all.as_slice(), 0, count));
                assert(bytes@ =~= all@.take(count as int));
                Ok(bytes)
            },
            None => {
                match parse_u64(w, 0, w.len(), 16) {
                    Some(v) => {
                        if v <= 0xFF {
                            assert(w@.subrange(0, w@.len() as int) =~= w@);
                            let mut out: Vec<u8> = Vec::new();
                            out.push(v as u8);
                            return Ok(out);
                        }
                    },
                    None => {},
                }
                assert(w@.subrange(0, w@.len() as int) =~= w@);
                let text = crate::text::string_of(w);
                Err(eds_error(&["unsupported path token '", text.as_str(), "'"]))
            },
        }
    }

    /// Converts an EDS path string: hex bytes, and `ParamN` or `[ParamN]`
    /// references, which are replaced by the parameter's default value.
    #[verifier::rlimit(40)]
    fn resolve_path(&self, text: &str) -> (r: Result<ConnectionPath>)
        ensures
            match path_from(self@, text@, 0) {
                None => r matches Err(e) && e is Eds,
                Some(b) => r matches Ok(p) && p@ == b,
            },
    {
        let c = chars_of(text);
        let ghost s = c@;
        let mut bytes: Vec<u8> = Vec::new();
        let mut i: usize = 0;
        loop
            invariant
                i <= s.len(),
                s == c@,
                s == text@,
                path_from(self@, s, 0) == match path_from(self@, s, i as int) {
                    None => None,
                    Some(rest) => Some(bytes@ + rest),
                },
            decreases s.len() - i,
        {
            proof {
                crate::text::lemma_white_end_at(s, i as int);
            }
            let mut a = i;
            while a < c.len() && crate::text::is_whitespace(c[a])
                invariant
                    i <= a <= s.len(),
                    s == c@,
                    crate::text::white_end(s, a as int) == crate::text::white_end(s, i as int),
                decreases s.len() - a,
            {
                a = a + 1;
            }
            if a >= c.len() {
                assert(bytes@ + seq![] =~= bytes@);
                return Ok(ConnectionPath::from(bytes));
            }
            proof {
                crate::text::lemma_word_end(s, a + 1);
            }
            let mut b = a + 1;
            while b < c.len() && !crate::text::is_whitespace(c[b])
                invariant
                    a < b <= s.len(),
                    s == c@,
                    crate::text::word_end(s, b as int) == crate::text::word_end(s, a + 1),
                decreases s.len() - b,
            {
                b = b + 1;
            }
            let word = vstd::slice::slice_subrange(c.as_slice(), a, b);
            let wb = match self.word_bytes(word) {
                Ok(v) => v,
                Err(e) => return Err(e),
            };
            let ghost before = bytes@;
            let ghost wbv = wb@;
            let mut wb = wb;
            bytes.append(&mut wb);
            proof {
                assert(word@ == s.subrange(a as int, b as int));
                if let Some(rest) = path_from(self@, s, b as int) {
                    assert(before + (wbv + rest) =~= bytes@ + rest);
                }
            }
            i = b;
        }
    }

    /// Decodes connection entry `e` as `ConnectionN`.
    fn decode_connection(&self, number: u32, e: &Entry) -> (r: Result<EdsConnection>)
        ensures
            r is Ok <==> connection_ok(self@, e@),
            r matches Ok(c) ==> c.read_from(self@, number as nat, e@),
            r matches Err(err) ==> err is Eds,
    {
        let name = text_field(e, 12);
        let help = text_field(e, 13);
        let trigger_transport = match int_field(e, 0) {
            Ok(Some(v)) => v as u32,
            Ok(None) => return Err(self.missing(e, number, "trigger and transport field")),
            Err(err) => return Err(err),
        };
        let connection_params = match int_field(e, 1) {
            Ok(Some(v)) => v as u32,
            Ok(None) => return Err(self.missing(e, number, "connection parameters field")),
            Err(err) => return Err(err),
        };
        let o2t = match self.direction(e, 2) {
            Ok(d) => d,
            Err(err) => return Err(err),
        };
        let t2o = match self.direction(e, 5) {
            Ok(d) => d,
            Err(err) => return Err(err),
        };
        let config_assembly = match assembly_field(e, 9) {
            Some(a) => Some(a),
            None => assembly_field(e, 11),
        };
        let path_text = text_field(e, 14);
        let path = match self.resolve_path(path_text.as_str()) {
            Ok(p) => p,
            Err(err) => {
                let mut msg = String::from_str("line ");
                push_dec(&mut msg, e.line as u64);
                msg.append(": Connection");
                push_dec(&mut msg, number as u64);
                msg.append(": ");
                msg.append(err.to_string().as_str());
                return Err(Error::Eds(msg));
            },
        };
        Ok(EdsConnection {
            number,
            name,
            help,
            trigger_transport,
            connection_params,
            o2t,
            t2o,
            config_assembly,
            path,
        })
    }

    /// The error for a missing required field of connection `number`.
    fn missing(&self, e: &Entry, number: u32, what: &str) -> (err: Error)
        ensures
            err is Eds,
    {
        let mut msg = String::from_str("line ");
        push_dec(&mut msg, e.line as u64);
        msg.append(": Connection");
        push_dec(&mut msg, number as u64);
        msg.append(" has no ");
        msg.append(what);
        Error::Eds(msg)
    }
}

/// The entries of `entries` whose keyword is `ConnectionN`, with their
/// numbers, in order.
pub open spec fn connection_entries(entries: Seq<EntryView>) -> Seq<(nat, EntryView)>
    decreases entries.len(),
{
    if entries.len() == 0 {
        seq![]
    } else {
        let rest = connection_entries(entries.drop_last());
        match numbered_spec(entries.last().keyword, "Connection"@) {
            Some(n) => rest.push((n, entries.last())),
            None => rest,
        }
    }
}

impl Eds {
    /// All `ConnectionN` entries of `[Connection Manager]`, in file order;
    /// none without that section.
    #[verifier::rlimit(50)]
    pub fn connections(&self) -> (r: Result<Vec<EdsConnection>>)
        ensures
            match find_section(self@, "Connection Manager"@) {
                None => r matches Ok(v) && v@.len() == 0,
                Some(i) => {
                    let ce = connection_entries(self@[i].entries);
                    &&& r is Ok <==> forall|k: int| 0 <= k < ce.len() ==> connection_ok(self@, #[trigger] ce[k].1)
                    &&& r matches Ok(v) ==> v@.len() == ce.len() && forall|k: int|
                        0 <= k < ce.len() ==> #[trigger] v@[k].read_from(self@, ce[k].0, ce[k].1)
                    &&& r matches Err(e) ==> e is Eds
                },
            },
    {
        let section = match self.section("Connection Manager") {
            None => return Ok(Vec::new()),
            Some(s) => s,
        };
        let ghost es = section@.entries;
        let mut out: Vec<EdsConnection> = Vec::new();
        let mut j: usize = 0;
        assert(es.take(0) =~= Seq::<EntryView>::empty());
        while j < section.entries.len()
            invariant
                j <= es.len(),
                es == section@.entries,
                find_section(self@, "Connection Manager"@) matches Some(i) && self@[i].entries == es,
                es.len() == section.entries@.len(),
                out@.len() == connection_entries(es.take(j as int)).len(),
                forall|k: int|
                    0 <= k < out@.len() ==> #[trigger] out@[k].read_from(
                        self@,
                        connection_entries(es.take(j as int))[k].0,
                        connection_entries(es.take(j as int))[k].1,
                    ),
                forall|k: int|
                    0 <= k < connection_entries(es.take(j as int)).len() ==> connection_ok(
                        self@,
                        #[trigger] connection_entries(es.take(j as int))[k].1,
                    ),
            decreases es.len() - j,
        {
            let e = &section.entries[j];
            assert(es.take(j + 1).drop_last() =~= es.take(j as int));
            assert(es.take(j + 1).last() == e@);
            let ghost before = connection_entries(es.take(j as int));
            match numbered(e.keyword.as_str(), "Connection") {
                Some(n) => {
                    let c = match self.decode_connection(n, e) {
                        Ok(c) => c,
                        Err(err) => {
                            proof {
                                let ce = connection_entries(es);
                                lemma_connection_entries_prefix(es, j + 1);
                                assert(connection_entries(es.take(j + 1)) == before.push((n as nat, e@)));
                                assert(ce[before.len() as int] == connection_entries(es.take(j + 1))[before.len() as int]);
                                assert(!connection_ok(self@, ce[before.len() as int].1));
                            }
                            return Err(err);
                        },
                    };
                    out.push(c);
                },
                None => {},
            }
            j = j + 1;
        }
        assert(es.take(j as int) =~= es);
        Ok(out)
    }

    /// `ConnectionN` from `[Connection Manager]`.
    pub fn connection(&self, number: u32) -> (r: Result<EdsConnection>)
        ensures
            match lookup(self@, "Connection Manager"@, connection_keyword(number as nat)) {
                None => r matches Err(e) && e is Eds,
                Some(e) => {
                    &&& r is Ok <==> connection_ok(self@, e)
                    &&& r matches Ok(c) ==> c.read_from(self@, number as nat, e)
                    &&& r matches Err(err) ==> err is Eds
                },
            },
    {
        let mut keyword = String::from_str("Connection");
        push_dec(&mut keyword, number as u64);
        let e = match self.entry("Connection Manager", keyword.as_str()) {
            Ok(e) => e,
            Err(err) => return Err(err),
        };
        self.decode_connection(number, e)
    }
}

/// The connection entries of a prefix are a prefix of those of the whole.
pub proof fn lemma_connection_entries_prefix(es: Seq<EntryView>, j: int)
    requires
        0 <= j <= es.len(),
    ensures
        connection_entries(es.take(j)).len() <= connection_entries(es).len(),
        forall|k: int|
            0 <= k < connection_entries(es.take(j)).len() ==> #[trigger] connection_entries(es.take(j))[k]
                == connection_entries(es)[k],
    decreases es.len() - j,
{
    if j < es.len() {
        lemma_connection_entries_prefix(es, j + 1);
        assert(es.take(j + 1).drop_last() =~= es.take(j));
        let a = connection_entries(es.take(j));
        let b = connection_entries(es.take(j + 1));
        assert(connection_entries(es.take(j + 1).drop_last()) == a);
        assert forall|k: int| 0 <= k < a.len() implies #[trigger] a[k] == connection_entries(es)[k] by {
            assert(a[k] == b[k]);
        }
    } else {
        assert(es.take(j) =~= es);
    }
}

/// Bit `n` of `v` is set.
pub open spec fn bit_set(v: u32, n: int) -> bool {
    v & (1u32 << (n as u32)) != 0
}

/// A connection's packet interval: the default, else the minimum, else 10 ms.
pub open spec fn rpi_or_default(d: EdsDirection) -> u32 {
    match d.rpi {
        Some(r) => match r.default {
            Some(x) => x,
            None => match r.min {
                Some(x) => x,
                None => 10_000,
            },
        },
        None => 10_000,
    }
}

/// A direction can be opened: it is point-to-point or null (multicast input
/// is not supported). O->T and T->O use the same bit layout, 4 bits apart.
pub open spec fn direction_supported(cp: u32, shift: u32) -> bool {
    bit_set(cp, 18 + shift) || bit_set(cp, 16 + shift)
}

/// The direction of a connection configuration for `d`, with the bits of
/// the connection parameters `shift` bits up and its fixed-size bit.
pub open spec fn direction_config(d: EdsDirection, cp: u32, shift: u32, fixed_bit: u32) -> Direction {
    Direction {
        size: d.size as u16,
        rpi_us: rpi_or_default(d) as u64,
        connection_type: if bit_set(cp, 18 + shift) {
            ConnectionType::PointToPoint
        } else {
            ConnectionType::Null
        },
        priority: if bit_set(cp, 26 + shift) {
            Priority::Scheduled
        } else if bit_set(cp, 25 + shift) {
            Priority::High
        } else {
            Priority::Low
        },
        size_type: if bit_set(cp, fixed_bit as int) {
            SizeType::Fixed
        } else {
            SizeType::Variable
        },
        run_idle_header: (cp >> ((8 + shift) as u32)) & 0x7 == 4,
    }
}

/// `bit_set` is bit `n` of `v`, counted from the least significant bit.
proof fn lemma_bit_set(v: u32, n: u32)
    requires
        n < 32,
    ensures
        bit_set(v, n as int) <==> (v >> n) & 1 == 1,
{
    assert(v & (1u32 << n) != 0 <==> (v >> n) & 1 == 1) by (bit_vector)
        requires
            n < 32,
    ;
}

/// The settings a connection's parameters give a direction whose bits
/// stand `shift` bits up (0 for O->T, 4 for T->O): the priority from bits
/// 24-26 (scheduled when bit 26 is set, else high when bit 25 is set, else
/// low), point-to-point when bit 18 is set, fixed size when the fixed-size
/// bit is set, and a run/idle header when bits 8-10 hold 4.
pub proof fn lemma_direction_bits(d: EdsDirection, cp: u32, shift: u32, fixed_bit: u32)
    requires
        shift == 0 || shift == 4,
        fixed_bit < 32,
    ensures
        ({
            let c = direction_config(d, cp, shift, fixed_bit);
            &&& (cp >> ((26 + shift) as u32)) & 1 == 1 ==> c.priority == Priority::Scheduled
            &&& (cp >> ((26 + shift) as u32)) & 1 == 0 && (cp >> ((25 + shift) as u32)) & 1 == 1 ==> c.priority == Priority::High
            &&& (cp >> ((26 + shift) as u32)) & 1 == 0 && (cp >> ((25 + shift) as u32)) & 1 == 0 ==> c.priority == Priority::Low
            &&& ((cp >> ((18 + shift) as u32)) & 1 == 1 <==> c.connection_type == ConnectionType::PointToPoint)
            &&& ((cp >> fixed_bit) & 1 == 1 <==> c.size_type == SizeType::Fixed)
            &&& (c.run_idle_header <==> (cp >> ((8 + shift) as u32)) & 7 == 4)
            &&& c.size == d.size as u16
        }),
{
    lemma_bit_set(cp, (26 + shift) as u32);
    lemma_bit_set(cp, (25 + shift) as u32);
    lemma_bit_set(cp, (18 + shift) as u32);
    lemma_bit_set(cp, fixed_bit);
}

/// Without a size field, an assembly's size is its member bits rounded up to
/// whole bytes: enough bytes for all the bits, and no byte more; with one,
/// it is the field's value.
pub proof fn lemma_assembly_size(e: EntryView)
    requires
        (member_bits(e.fields, 6) + 7) / 8 <= usize::MAX,
    ensures
        ({
            let bits = member_bits(e.fields, 6);
            let size = assembly_size(e);
            &&& !(int_field_spec(e, 2) matches Some(Some(_))) ==> 8 * size >= bits && (size == 0 || 8 * (size - 1) < bits)
            &&& forall|b: nat| int_field_spec(e, 2) == Some(Some(b)) && b <= usize::MAX ==> size == b
        }),
{
}

impl EdsConnection {
    /// Bit `n` of `v`.
    pub fn bit(v: u32, n: u32) -> (r: bool)
        requires
            n < 32,
        ensures
            r == bit_set(v, n as int),
    {
        v & (1u32 << n) != 0
    }

    fn direction_config(&self, dir: &EdsDirection, shift: u32, fixed_bit: u32, name: &str) -> (r: Result<Direction>)
        requires
            shift <= 4,
            fixed_bit < 32,
        ensures
            r is Ok <==> direction_supported(self.connection_params, shift),
            r matches Ok(d) ==> d == direction_config(*dir, self.connection_params, shift, fixed_bit),
            r matches Err(e) ==> e is Unsupported,
    {
        let cp = self.connection_params;
        let connection_type = if Self::bit(cp, 18 + shift) {
            ConnectionType::PointToPoint
        } else if Self::bit(cp, 16 + shift) {
            ConnectionType::Null
        } else {
            let mut what = String::from_str(name);
            what.append(" is not point-to-point");
            return Err(self.unsupported(what.as_str()));
        };
        let priority = if Self::bit(cp, 26 + shift) {
            Priority::Scheduled
        } else if Self::bit(cp, 25 + shift) {
            Priority::High
        } else {
            Priority::Low
        };
        let rpi_us: u32 = match dir.rpi {
            Some(r) => match r.default {
                Some(x) => x,
                None => match r.min {
                    Some(x) => x,
                    None => 10_000,
                },
            },
            None => 10_000,
        };
        Ok(Direction {
            size: dir.size as u16,
            rpi_us: rpi_us as u64,
            connection_type,
            priority,
            size_type: if Self::bit(cp, fixed_bit) {
                SizeType::Fixed
            } else {
                SizeType::Variable
            },
            run_idle_header: (cp >> (8 + shift)) & 0x7 == 4,
        })
    }

    fn unsupported(&self, what: &str) -> (e: Error)
        ensures
            e is Unsupported,
    {
        let mut msg = String::from_str("Connection");
        push_dec(&mut msg, self.number as u64);
        msg.append(" (");
        msg.append(self.name.as_str());
        msg.append("): ");
        msg.append(what);
        Error::Unsupported(msg)
    }

    /// Builds a connection config from the EDS entry: path, sizes, packet
    /// intervals (the default, else the minimum, else 10 ms), transport
    /// class and trigger, connection types, priorities, and whether each
    /// direction has a run/idle header. Point-to-point is preferred, since
    /// multicast input isn't supported. The originator vendor ID and serial
    /// number, and any configuration data, are left for the caller.
    pub fn to_connection_config(&self) -> (r: Result<ConnectionConfig>)
        ensures
            r is Ok <==> (bit_set(self.trigger_transport, 1) || bit_set(self.trigger_transport, 0))
                && direction_supported(self.connection_params, 0) && direction_supported(self.connection_params, 4),
            r matches Err(e) ==> e is Unsupported,
            r matches Ok(c) ==> {
                let tt = self.trigger_transport;
                &&& c.path@ == self.path@
                &&& c.config_data@.len() == 0
                &&& c.o2t == direction_config(self.o2t, self.connection_params, 0, 0)
                &&& c.t2o == direction_config(self.t2o, self.connection_params, 4, 2)
                &&& c.transport_class == if bit_set(tt, 1) {
                    TransportClass::Class1
                } else {
                    TransportClass::Class0
                }
                &&& c.trigger == if bit_set(tt, 17) && !bit_set(tt, 16) {
                    Trigger::ChangeOfState
                } else if bit_set(tt, 18) && !bit_set(tt, 16) {
                    Trigger::Application
                } else {
                    Trigger::Cyclic
                }
                &&& c.timeout_multiplier == 0
                &&& c.originator_vendor_id == 0
                &&& c.originator_serial_number == 0
            },
    {
        let tt = self.trigger_transport;
        let transport_class = if Self::bit(tt, 1) {
            TransportClass::Class1
        } else if Self::bit(tt, 0) {
            TransportClass::Class0
        } else {
            return Err(self.unsupported("only transport classes 0 and 1 are supported for I/O"));
        };
        let trigger = if Self::bit(tt, 17) && !Self::bit(tt, 16) {
            Trigger::ChangeOfState
        } else if Self::bit(tt, 18) && !Self::bit(tt, 16) {
            Trigger::Application
        } else {
            Trigger::Cyclic
        };
        let o2t = match self.direction_config(&self.o2t, 0, 0, "O->T") {
            Ok(d) => d,
            Err(e) => return Err(e),
        };
        let t2o = match self.direction_config(&self.t2o, 4, 2, "T->O") {
            Ok(d) => d,
            Err(e) => return Err(e),
        };
        let path = ConnectionPath::from(vstd::slice::slice_to_vec(self.path.as_bytes()));
        let mut config = ConnectionConfig::new(path, o2t, t2o);
        config.transport_class = transport_class;
        config.trigger = trigger;
        Ok(config)
    }
}

} // verus!
