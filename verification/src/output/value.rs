//! Value-type aware decoding shared by `show` and `find`.
//!
//! Both subcommands map a value's data type to its REG_* name and decode
//! its data into three renderings: a display text, a search text and a
//! structured counterpart for the JSON output.

use vstd::prelude::*;
use nt_hive::NtHiveError;
use crate::error::{push_joined, string_views};
use crate::hive::nt::{
    big_data_all_ok, big_data_bytes, big_data_left, big_data_next, data_result, multi_sz_all_ok, multi_sz_left, multi_sz_lines, multi_sz_next, value_data, value_data_type_code,
    dword_of, multi_string_result, type_code_result, qword_of, string_data_result,
    value_dword_data, value_multi_string_data, value_qword_data, value_string_data, HiveValue,
    MultiSzIter, ValueBytes, hive_error_message, hive_error_text,
};
use crate::output::hex::{hex_dump, hex_dump_spec};
use crate::output::text::{
    chars_of, dec, hex_fixed, join, push_decimal, push_hex_fixed, push_str,
    string_from_chars, trim_trailing_nul,
};
use crate::output::{truncate_chars, truncate_spec};

verus! {

/// The registry data types that `nt_hive` knows.
#[derive(Clone, Copy, Debug, PartialEq, Eq, Structural)]
pub enum RegType {
    RegNone,
    RegSZ,
    RegExpandSZ,
    RegBinary,
    RegDWord,
    RegDWordBigEndian,
    RegLink,
    RegMultiSZ,
    RegResourceList,
    RegFullResourceDescriptor,
    RegResourceRequirementsList,
    RegQWord,
}

/// The type with on-disk number `code`.
pub open spec fn reg_type_of_code(code: u32) -> RegType {
    if code == 0 { RegType::RegNone }
    else if code == 1 { RegType::RegSZ }
    else if code == 2 { RegType::RegExpandSZ }
    else if code == 3 { RegType::RegBinary }
    else if code == 4 { RegType::RegDWord }
    else if code == 5 { RegType::RegDWordBigEndian }
    else if code == 6 { RegType::RegLink }
    else if code == 7 { RegType::RegMultiSZ }
    else if code == 8 { RegType::RegResourceList }
    else if code == 9 { RegType::RegFullResourceDescriptor }
    else if code == 10 { RegType::RegResourceRequirementsList }
    else { RegType::RegQWord }
}

/// The user-facing REG_* name of a type.
pub open spec fn label_spec(t: RegType) -> Seq<char> {
    match t {
        RegType::RegNone => "REG_NONE"@,
        RegType::RegSZ => "REG_SZ"@,
        RegType::RegExpandSZ => "REG_EXPAND_SZ"@,
        RegType::RegBinary => "REG_BINARY"@,
        RegType::RegDWord => "REG_DWORD"@,
        RegType::RegDWordBigEndian => "REG_DWORD_BIG_ENDIAN"@,
        RegType::RegLink => "REG_LINK"@,
        RegType::RegMultiSZ => "REG_MULTI_SZ"@,
        RegType::RegResourceList => "REG_RESOURCE_LIST"@,
        RegType::RegFullResourceDescriptor => "REG_FULL_RESOURCE_DESCRIPTOR"@,
        RegType::RegResourceRequirementsList => "REG_RESOURCE_REQUIREMENTS_LIST"@,
        RegType::RegQWord => "REG_QWORD"@,
    }
}

/// The type with on-disk number `code` (0 to 11).
pub fn reg_type_from_code(code: u32) -> (t: RegType)
    requires
        code <= 11,
    ensures
        t == reg_type_of_code(code),
{
    if code == 0 { RegType::RegNone }
    else if code == 1 { RegType::RegSZ }
    else if code == 2 { RegType::RegExpandSZ }
    else if code == 3 { RegType::RegBinary }
    else if code == 4 { RegType::RegDWord }
    else if code == 5 { RegType::RegDWordBigEndian }
    else if code == 6 { RegType::RegLink }
    else if code == 7 { RegType::RegMultiSZ }
    else if code == 8 { RegType::RegResourceList }
    else if code == 9 { RegType::RegFullResourceDescriptor }
    else if code == 10 { RegType::RegResourceRequirementsList }
    else { RegType::RegQWord }
}

/// Map a registry data type to its user-facing REG_* name.
pub fn reg_type_label(t: RegType) -> (s: &'static str)
    ensures
        s@ == label_spec(t),
{
    match t {
        RegType::RegNone => "REG_NONE",
        RegType::RegSZ => "REG_SZ",
        RegType::RegExpandSZ => "REG_EXPAND_SZ",
        RegType::RegBinary => "REG_BINARY",
        RegType::RegDWord => "REG_DWORD",
        RegType::RegDWordBigEndian => "REG_DWORD_BIG_ENDIAN",
        RegType::RegLink => "REG_LINK",
        RegType::RegMultiSZ => "REG_MULTI_SZ",
        RegType::RegResourceList => "REG_RESOURCE_LIST",
        RegType::RegFullResourceDescriptor => "REG_FULL_RESOURCE_DESCRIPTOR",
        RegType::RegResourceRequirementsList => "REG_RESOURCE_REQUIREMENTS_LIST",
        RegType::RegQWord => "REG_QWORD",
    }
}

/// The label shown for a value of type `kind` (`None`: a type `nt_hive`
/// does not know).
pub open spec fn kind_label(kind: Option<RegType>) -> Seq<char> {
    match kind {
        Some(t) => label_spec(t),
        None => "REG_UNKNOWN"@,
    }
}

/// The type of `val` as `nt_hive` reports it (`None`: a type it does not
/// know).
pub open spec fn kind_of(val: HiveValue) -> Option<RegType> {
    match type_code_result(val) {
        Ok(code) => Some(reg_type_of_code(code)),
        Err(_) => None,
    }
}

/// The data type of a value and its label: `None` and `REG_UNKNOWN` for a
/// type `nt_hive` does not know.
pub fn value_kind(val: &HiveValue) -> (r: (Option<RegType>, String))
    ensures
        r.0 == kind_of(*val),
        r.1@ == kind_label(r.0),
{
    match value_data_type_code(val) {
        Ok(code) => {
            let t = reg_type_from_code(code);
            (Some(t), String::from_str(reg_type_label(t)))
        },
        Err(_) => (None, String::from_str("REG_UNKNOWN")),
    }
}

/// The structured form of decoded value data, as the JSON output shows it.
pub enum DataJson {
    /// Not requested.
    Null,
    /// A string value.
    Text(String),
    /// A DWORD or QWORD value.
    Number(u64),
    /// The lines of a multi-string value.
    Lines(Vec<String>),
    /// Every byte of a raw value.
    Bytes(Vec<u8>),
}

/// A decoded value: display text, search text and structured form.
pub struct FormattedValue {
    pub human: String,
    pub json: DataJson,
    pub search: String,
}

/// Most characters of a string shown before it is cut.
pub const MAX_DISPLAY_CHARS: usize = 80;

/// Bytes of raw data shown in a hex preview.
pub const SHOW_BYTES: usize = 32;

/// `fv.json` is `Null` unless JSON was requested, when it satisfies `p`.
pub open spec fn json_if(fv: FormattedValue, include_json: bool, p: bool) -> bool {
    if include_json { p } else { fv.json is Null }
}

/// `fv` is the decoding of the string `s` (as `nt_hive` returned it).
pub open spec fn is_string_form(fv: FormattedValue, s: Seq<char>, include_json: bool) -> bool {
    let t = trim_trailing_nul(s);
    &&& fv.search@ == t
    &&& fv.human@ == truncate_spec(t, MAX_DISPLAY_CHARS as nat)
    &&& json_if(fv, include_json, fv.json matches DataJson::Text(j) && j@ == t)
}

/// `{n} (0x{n:08x})`.
pub open spec fn dword_text(n: u32) -> Seq<char> {
    dec(n as nat) + " (0x"@ + hex_fixed(n as nat, 8) + ")"@
}

/// `{n} (0x{n:016x})`.
pub open spec fn qword_text(n: u64) -> Seq<char> {
    dec(n as nat) + " (0x"@ + hex_fixed(n as nat, 16) + ")"@
}

/// `fv` is the decoding of the DWORD `n`.
pub open spec fn is_dword_form(fv: FormattedValue, n: u32, include_json: bool) -> bool {
    &&& fv.human@ == dword_text(n)
    &&& fv.search@ == dword_text(n)
    &&& json_if(fv, include_json, fv.json == DataJson::Number(n as u64))
}

/// `fv` is the decoding of the QWORD `n`.
pub open spec fn is_qword_form(fv: FormattedValue, n: u64, include_json: bool) -> bool {
    &&& fv.human@ == qword_text(n)
    &&& fv.search@ == qword_text(n)
    &&& json_if(fv, include_json, fv.json == DataJson::Number(n))
}

/// The search text of a multi-string value with `lines`.
pub open spec fn multi_text(lines: Seq<Seq<char>>) -> Seq<char> {
    if lines.len() == 0 { "<empty>"@ } else { join(lines, "  |  "@) }
}

/// `fv` is the decoding of a multi-string value with (trimmed) `lines`.
pub open spec fn is_multi_form(fv: FormattedValue, lines: Seq<Seq<char>>, include_json: bool) -> bool {
    &&& fv.search@ == multi_text(lines)
    &&& fv.human@ == truncate_spec(multi_text(lines), MAX_DISPLAY_CHARS as nat)
    &&& json_if(fv, include_json, fv.json matches DataJson::Lines(ls) && string_views(ls@) == lines)
}

/// The hex preview of raw data `data`: its first bytes, and how many more
/// there are when it is longer.
pub open spec fn raw_text(data: Seq<u8>) -> Seq<char> {
    if data.len() <= SHOW_BYTES {
        hex_dump_spec(data)
    } else {
        hex_dump_spec(data.take(SHOW_BYTES as int)) + " \u{2026} ("@ + dec((clamped_len(data) - SHOW_BYTES) as nat)
            + " more bytes)"@
    }
}

/// The count of raw bytes as the decoder keeps it: saturating at `usize::MAX`.
pub open spec fn clamped_len(data: Seq<u8>) -> nat {
    if data.len() <= usize::MAX { data.len() } else { usize::MAX as nat }
}

/// `fv` is the decoding of raw data `data`.
pub open spec fn is_raw_form(fv: FormattedValue, data: Seq<u8>, include_json: bool) -> bool {
    &&& fv.human@ == raw_text(data)
    &&& fv.search@ == raw_text(data)
    &&& json_if(fv, include_json, fv.json matches DataJson::Bytes(b) && b@ == data)
}

/// Decode a string (as `nt_hive` decodes `REG_SZ` data): trailing NULs
/// dropped, display text cut at 80 characters, search text whole.
pub fn decode_string_value(s: &str, include_json: bool) -> (fv: FormattedValue)
    ensures
        is_string_form(fv, s@, include_json),
{
    let cs = chars_of(s);
    let mut n = cs.len();
    assert(cs@.take(cs@.len() as int) =~= cs@);
    while n > 0 && cs[n - 1] == '\0'
        invariant
            n <= cs@.len(),
            cs@ == s@,
            trim_trailing_nul(cs@.take(n as int)) == trim_trailing_nul(s@),
        decreases n,
    {
        assert(cs@.take(n as int).drop_last() =~= cs@.take(n as int - 1));
        n = n - 1;
    }
    proof {
        let t = cs@.take(n as int);
        assert(!(t.len() > 0 && t.last() == '\0'));
        assert(trim_trailing_nul(t) == t);
    }
    let trimmed = &cs[0..n];
    let human = truncate_chars(trimmed, MAX_DISPLAY_CHARS);
    let search = string_from_chars(trimmed);
    let json = if include_json { DataJson::Text(string_from_chars(trimmed)) } else { DataJson::Null };
    FormattedValue { human, json, search }
}

/// Decode a DWORD as `{n} (0x{n:08x})`.
pub fn decode_dword(n: u32, include_json: bool) -> (fv: FormattedValue)
    ensures
        is_dword_form(fv, n, include_json),
{
    let mut text = String::new();
    push_decimal(&mut text, n as u64);
    push_str(&mut text, " (0x");
    push_hex_fixed(&mut text, n as u64, 8);
    push_str(&mut text, ")");
    assert(text@ =~= dword_text(n));
    let human = text.clone();
    let json = if include_json { DataJson::Number(n as u64) } else { DataJson::Null };
    FormattedValue { human, json, search: text }
}

/// Decode a QWORD as `{n} (0x{n:016x})`.
pub fn decode_qword(n: u64, include_json: bool) -> (fv: FormattedValue)
    ensures
        is_qword_form(fv, n, include_json),
{
    let mut text = String::new();
    push_decimal(&mut text, n);
    push_str(&mut text, " (0x");
    push_hex_fixed(&mut text, n, 16);
    push_str(&mut text, ")");
    assert(text@ =~= qword_text(n));
    let human = text.clone();
    let json = if include_json { DataJson::Number(n) } else { DataJson::Null };
    FormattedValue { human, json, search: text }
}

/// `fv` is a decoding of data of type `kind` (`None`: a type `nt_hive`
/// does not know), whatever the data was.
pub open spec fn value_form(fv: FormattedValue, kind: Option<RegType>, include_json: bool) -> bool {
    if kind == Some(RegType::RegSZ) || kind == Some(RegType::RegExpandSZ) {
        exists|s: Seq<char>| is_string_form(fv, s, include_json)
    } else if kind == Some(RegType::RegDWord) || kind == Some(RegType::RegDWordBigEndian) {
        exists|n: u32| is_dword_form(fv, n, include_json)
    } else if kind == Some(RegType::RegQWord) {
        exists|n: u64| is_qword_form(fv, n, include_json)
    } else if kind == Some(RegType::RegMultiSZ) {
        exists|lines: Seq<Seq<char>>| is_multi_form(fv, lines, include_json)
    } else {
        exists|data: Seq<u8>| is_raw_form(fv, data, include_json)
    }
}

/// `human` and `search` are the display and search texts of a decoding of
/// data of type `kind`.
pub open spec fn searchable_as(human: Seq<char>, search: Seq<char>, kind: Option<RegType>) -> bool {
    exists|fv: FormattedValue| fv.human@ == human && fv.search@ == search && #[trigger] value_form(fv, kind, false)
}

/// `s` without its trailing NUL characters.
pub fn trim_nul_string(s: &str) -> (t: String)
    ensures
        t@ == trim_trailing_nul(s@),
{
    let cs = chars_of(s);
    let mut n = cs.len();
    assert(cs@.take(cs@.len() as int) =~= cs@);
    while n > 0 && cs[n - 1] == '\0'
        invariant
            n <= cs@.len(),
            cs@ == s@,
            trim_trailing_nul(cs@.take(n as int)) == trim_trailing_nul(s@),
        decreases n,
    {
        assert(cs@.take(n as int).drop_last() =~= cs@.take(n as int - 1));
        n = n - 1;
    }
    proof {
        let t = cs@.take(n as int);
        assert(trim_trailing_nul(t) == t);
    }
    string_from_chars(&cs[0..n])
}

/// Render the (NUL-trimmed) lines of a multi-string value: joined with
/// `  |  ` (or `<empty>` when there are none), display text cut at 80
/// characters.
pub fn format_multi_lines(lines: Vec<String>, include_json: bool) -> (fv: FormattedValue)
    ensures
        is_multi_form(fv, string_views(lines@), include_json),
{
    let search = if lines.len() == 0 {
        String::from_str("<empty>")
    } else {
        let mut s = String::new();
        push_joined(&mut s, &lines, "  |  ");
        assert(Seq::<char>::empty() + join(string_views(lines@), "  |  "@) =~= join(string_views(lines@), "  |  "@));
        s
    };
    let search_chars = chars_of(search.as_str());
    let human = truncate_chars(search_chars.as_slice(), MAX_DISPLAY_CHARS);
    let json = if include_json { DataJson::Lines(lines) } else { DataJson::Null };
    FormattedValue { human, json, search }
}

/// `lines` with their trailing NULs dropped.
pub open spec fn trimmed_lines(lines: Seq<Seq<char>>) -> Seq<Seq<char>> {
    lines.map_values(|l: Seq<char>| trim_trailing_nul(l))
}

/// Walk the lines of a multi-string value and render them.
pub fn decode_multi_string(iter: MultiSzIter, include_json: bool) -> (r: Result<FormattedValue, NtHiveError>)
    ensures
        r is Ok <==> multi_sz_all_ok(iter),
        r matches Ok(fv) ==> multi_sz_lines(iter).len() == multi_sz_left(iter)
            && is_multi_form(fv, trimmed_lines(multi_sz_lines(iter)), include_json),
{
    let mut it = iter;
    let mut lines: Vec<String> = Vec::new();
    loop
        invariant_except_break
            lines@.len() + multi_sz_left(it) == multi_sz_left(iter),
            multi_sz_all_ok(it) == multi_sz_all_ok(iter),
            string_views(lines@) + trimmed_lines(multi_sz_lines(it)) == trimmed_lines(multi_sz_lines(iter)),
        ensures
            lines@.len() == multi_sz_left(iter),
            multi_sz_all_ok(iter),
            string_views(lines@) == trimmed_lines(multi_sz_lines(iter)),
        decreases multi_sz_left(it),
    {
        let ghost before = it;
        proof { use_type_invariant(&it); }
        match multi_sz_next(&mut it) {
            None => {
                assert(string_views(lines@) + trimmed_lines(multi_sz_lines(before)) =~= string_views(lines@));
                break;
            },
            Some(Err(e)) => return Err(e),
            Some(Ok(line)) => {
                let ghost prev = lines@;
                lines.push(trim_nul_string(line.as_str()));
                proof {
                    let rest = multi_sz_lines(it);
                    assert(trimmed_lines(multi_sz_lines(before)) =~= seq![trim_trailing_nul(line@)] + trimmed_lines(rest));
                    assert(string_views(lines@) =~= string_views(prev).push(trim_trailing_nul(line@)));
                    assert(string_views(lines@) + trimmed_lines(rest)
                        =~= string_views(prev) + trimmed_lines(multi_sz_lines(before)));
                }
            },
        }
    }
    let ghost views = string_views(lines@);
    let fv = format_multi_lines(lines, include_json);
    assert(is_multi_form(fv, views, include_json));
    Ok(fv)
}

/// A running hex preview of raw data that arrives in pieces.
pub struct RawBytesPreview {
    preview: Vec<u8>,
    total: usize,
    json_bytes: Option<Vec<u8>>,
    seen: Ghost<Seq<u8>>,
}

impl RawBytesPreview {
    /// The bytes consumed so far.
    pub closed spec fn seen(&self) -> Seq<u8> {
        self.seen@
    }

    /// Whether every byte is kept for the JSON output.
    pub closed spec fn keeps_bytes(&self) -> bool {
        self.json_bytes is Some
    }

    /// The preview holds the first `SHOW_BYTES` bytes seen, the total their
    /// clamped count, and the kept bytes all of them.
    pub closed spec fn wf(&self) -> bool {
        &&& self.preview@ == self.seen@.take(
            if self.seen@.len() <= SHOW_BYTES { self.seen@.len() as int } else { SHOW_BYTES as int },
        )
        &&& self.total as nat == clamped_len(self.seen@)
        &&& (self.json_bytes matches Some(b) ==> b@ == self.seen@)
    }

    /// An empty preview; `include_json` keeps every byte as well.
    pub fn new(include_json: bool) -> (p: Self)
        ensures
            p.wf(),
            p.seen() == Seq::<u8>::empty(),
            p.keeps_bytes() == include_json,
    {
        let json_bytes = if include_json { Some(Vec::new()) } else { None };
        let p = RawBytesPreview { preview: Vec::new(), total: 0, json_bytes, seen: Ghost(Seq::empty()) };
        assert(Seq::<u8>::empty().take(0) =~= Seq::<u8>::empty());
        p
    }

    /// Take in the next piece of data.
    pub fn consume(&mut self, bytes: &[u8])
        requires
            old(self).wf(),
        ensures
            final(self).wf(),
            final(self).seen() == old(self).seen() + bytes@,
            final(self).keeps_bytes() == old(self).keeps_bytes(),
    {
        let ghost old_seen = self.seen@;
        self.total = self.total.saturating_add(bytes.len());
        let remaining: usize = if self.preview.len() < SHOW_BYTES { SHOW_BYTES - self.preview.len() } else { 0 };
        let take: usize = if bytes.len() < remaining { bytes.len() } else { remaining };
        push_bytes(&mut self.preview, &bytes[0..take]);
        match &mut self.json_bytes {
            Some(values) => push_bytes(values, bytes),
            None => {},
        }
        self.seen = Ghost(old_seen + bytes@);
        proof {
            let new_seen = old_seen + bytes@;
            let k: int = if new_seen.len() <= SHOW_BYTES { new_seen.len() as int } else { SHOW_BYTES as int };
            assert(self.preview@ =~= new_seen.take(k));
        }
    }

    /// The rendering of everything consumed.
    pub fn finish(self) -> (fv: FormattedValue)
        requires
            self.wf(),
        ensures
            is_raw_form(fv, self.seen(), self.keeps_bytes()),
    {
        let mut text = hex_dump(self.preview.as_slice());
        let ghost seen = self.seen@;
        if self.total > SHOW_BYTES {
            let ghost head = text@;
            push_str(&mut text, " \u{2026} (");
            push_decimal(&mut text, (self.total - SHOW_BYTES) as u64);
            push_str(&mut text, " more bytes)");
            assert(text@ =~= head + " \u{2026} ("@ + dec((clamped_len(seen) - SHOW_BYTES) as nat) + " more bytes)"@);
        } else {
            assert(seen.take(seen.len() as int) =~= seen);
        }
        let json = match self.json_bytes {
            Some(b) => DataJson::Bytes(b),
            None => DataJson::Null,
        };
        let human = text.clone();
        FormattedValue { human, json, search: text }
    }
}

/// Appends `s` to `v`.
pub fn push_bytes(v: &mut Vec<u8>, s: &[u8])
    ensures
        final(v)@ == old(v)@ + s@,
{
    let ghost start = v@;
    let n = s.len();
    let mut i: usize = 0;
    while i < n
        invariant
            n == s@.len(),
            i <= n,
            v@ == start + s@.take(i as int),
        decreases n - i,
    {
        v.push(s[i]);
        assert(s@.take(i as int + 1) =~= s@.take(i as int).push(s@[i as int]));
        i = i + 1;
    }
    assert(s@.take(n as int) =~= s@);
}

/// The raw data of `val` as `nt_hive` hands it out: one slice, or the
/// joined Big Data segments.
pub open spec fn raw_data(val: HiveValue) -> Seq<u8> {
    match data_result(val) {
        Ok(ValueBytes::Small(bytes)) => bytes@,
        Ok(ValueBytes::Big(it)) => big_data_bytes(it),
        Err(_) => Seq::empty(),
    }
}

/// Whether `nt_hive` hands out all the raw data of `val` without error.
pub open spec fn raw_readable(val: HiveValue) -> bool {
    match data_result(val) {
        Ok(ValueBytes::Small(_)) => true,
        Ok(ValueBytes::Big(it)) => big_data_all_ok(it),
        Err(_) => false,
    }
}

/// Render raw bytes (`REG_BINARY`, `REG_NONE`, unknown types, ...) as a
/// hex dump of the first 32 bytes, walking Big Data segments once.
pub fn decode_raw_bytes(val: &HiveValue, include_json: bool) -> (r: Result<FormattedValue, NtHiveError>)
    ensures
        r is Ok <==> raw_readable(*val),
        r matches Ok(fv) ==> is_raw_form(fv, raw_data(*val), include_json),
{
    let mut acc = RawBytesPreview::new(include_json);
    proof { use_type_invariant(&val); }
    match value_data(val) {
        Err(e) => return Err(e),
        Ok(ValueBytes::Small(bytes)) => {
            acc.consume(bytes);
            assert(acc.seen() =~= raw_data(*val));
        },
        Ok(ValueBytes::Big(iter)) => {
            let mut it = iter;
            loop
                invariant_except_break
                    acc.wf(),
                    acc.keeps_bytes() == include_json,
                    acc.seen() + big_data_bytes(it) == big_data_bytes(iter),
                    big_data_all_ok(it) == big_data_all_ok(iter),
                    raw_readable(*val) == big_data_all_ok(iter),
                ensures
                    acc.wf(),
                    acc.keeps_bytes() == include_json,
                    acc.seen() == big_data_bytes(iter),
                    big_data_all_ok(iter),
                decreases big_data_left(it),
            {
                let ghost before = it;
                let ghost seen_before = acc.seen();
                proof { use_type_invariant(&it); }
                match big_data_next(&mut it) {
                    None => {
                        assert(acc.seen() + big_data_bytes(before) =~= acc.seen());
                        break;
                    },
                    Some(Err(e)) => return Err(e),
                    Some(Ok(slice)) => {
                        acc.consume(slice);
                        assert(acc.seen() + big_data_bytes(it) =~= seen_before + big_data_bytes(before));
                    },
                }
            }
        },
    }
    let ghost data = acc.seen();
    let fv = acc.finish();
    assert(is_raw_form(fv, data, include_json));
    Ok(fv)
}

/// Whether `nt_hive` decodes the data of `val` as type `kind` calls for.
pub open spec fn decodable(val: HiveValue, kind: Option<RegType>) -> bool {
    if kind == Some(RegType::RegSZ) || kind == Some(RegType::RegExpandSZ) {
        string_data_result(val) is Ok
    } else if kind == Some(RegType::RegDWord) || kind == Some(RegType::RegDWordBigEndian) {
        dword_of(val) is Some
    } else if kind == Some(RegType::RegQWord) {
        qword_of(val) is Some
    } else if kind == Some(RegType::RegMultiSZ) {
        multi_string_result(val) matches Ok(it) && multi_sz_all_ok(it)
    } else {
        raw_readable(val)
    }
}

/// `fv` is the decoding of the data `nt_hive` gives for `val` as type
/// `kind`.
pub open spec fn decoded_as(fv: FormattedValue, val: HiveValue, kind: Option<RegType>, include_json: bool) -> bool {
    if kind == Some(RegType::RegSZ) || kind == Some(RegType::RegExpandSZ) {
        string_data_result(val) matches Ok(s) && is_string_form(fv, s@, include_json)
    } else if kind == Some(RegType::RegDWord) || kind == Some(RegType::RegDWordBigEndian) {
        dword_of(val) matches Some(n) && is_dword_form(fv, n, include_json)
    } else if kind == Some(RegType::RegQWord) {
        qword_of(val) matches Some(n) && is_qword_form(fv, n, include_json)
    } else if kind == Some(RegType::RegMultiSZ) {
        multi_string_result(val) matches Ok(it)
            && is_multi_form(fv, trimmed_lines(multi_sz_lines(it)), include_json)
    } else {
        is_raw_form(fv, raw_data(val), include_json)
    }
}

/// Why a value's data does not decode: an `nt_hive` error, or data of the
/// wrong size for a DWORD or QWORD.
pub enum DecodeError {
    Hive(NtHiveError),
    DataSize { expected: usize, actual: usize },
}

/// The message of a decode error.
pub open spec fn decode_error_text(e: DecodeError) -> Seq<char> {
    match e {
        DecodeError::Hive(h) => hive_error_text(h),
        DecodeError::DataSize { expected, actual } => "The data should have a size of "@ + dec(expected as nat)
            + " bytes, but it has "@ + dec(actual as nat) + " bytes"@,
    }
}

/// The message of a decode error.
pub fn decode_error_message(e: &DecodeError) -> (s: String)
    ensures
        s@ == decode_error_text(*e),
{
    match e {
        DecodeError::Hive(h) => hive_error_message(h),
        DecodeError::DataSize { expected, actual } => {
            let mut s = String::from_str("The data should have a size of ");
            push_decimal(&mut s, *expected as u64);
            push_str(&mut s, " bytes, but it has ");
            push_decimal(&mut s, *actual as u64);
            push_str(&mut s, " bytes");
            proof {
                reveal_strlit("The data should have a size of ");
                reveal_strlit(" bytes, but it has ");
                reveal_strlit(" bytes");
            }
            assert(s@ =~= decode_error_text(*e));
            s
        },
    }
}

/// Where `nt_hive` holds `val`'s data in one slice, its length must be
/// `size` for the number to be read: otherwise the size error, which the
/// library reports itself.
fn check_small_size(val: &HiveValue, size: usize) -> (r: Result<(), DecodeError>)
    ensures
        r is Ok <==> !(data_result(*val) matches Ok(ValueBytes::Small(d)) && d@.len() != size),
        r matches Err(e) ==> e matches DecodeError::DataSize { expected, .. } && expected == size,
{
    proof { use_type_invariant(&val); }
    match value_data(val) {
        Ok(ValueBytes::Small(d)) => {
            if d.len() != size {
                Err(DecodeError::DataSize { expected: size, actual: d.len() })
            } else {
                Ok(())
            }
        },
        _ => Ok(()),
    }
}

/// Decode a value's data according to its type `kind` (`None` when
/// `nt_hive` does not know the type): strings, DWORDs, QWORDs and
/// multi-strings by their decoders, everything else as raw bytes.
pub fn format_value_data(val: &HiveValue, kind: Option<RegType>, include_json: bool) -> (r: Result<FormattedValue, DecodeError>)
    ensures
        r is Ok <==> decodable(*val, kind),
        r matches Ok(fv) ==> decoded_as(fv, *val, kind, include_json),
        r matches Ok(fv) ==> value_form(fv, kind, include_json),
{
    match kind {
        Some(RegType::RegSZ) | Some(RegType::RegExpandSZ) => {
            proof { use_type_invariant(&val); }
            match value_string_data(val) {
                Ok(s) => Ok(decode_string_value(s.as_str(), include_json)),
                Err(e) => Err(DecodeError::Hive(e)),
            }
        },
        Some(RegType::RegDWord) | Some(RegType::RegDWordBigEndian) => {
            check_small_size(val, 4)?;
            proof { use_type_invariant(&val); }
            match value_dword_data(val) {
                Ok(n) => Ok(decode_dword(n, include_json)),
                Err(e) => Err(DecodeError::Hive(e)),
            }
        },
        Some(RegType::RegQWord) => {
            check_small_size(val, 8)?;
            proof { use_type_invariant(&val); }
            match value_qword_data(val) {
                Ok(n) => Ok(decode_qword(n, include_json)),
                Err(e) => Err(DecodeError::Hive(e)),
            }
        },
        Some(RegType::RegMultiSZ) => {
            proof { use_type_invariant(&val); }
            match value_multi_string_data(val) {
                Ok(iter) => match decode_multi_string(iter, include_json) {
                    Ok(fv) => Ok(fv),
                    Err(e) => Err(DecodeError::Hive(e)),
                },
                Err(e) => Err(DecodeError::Hive(e)),
            }
        },
        _ => match decode_raw_bytes(val, include_json) {
            Ok(fv) => Ok(fv),
            Err(e) => Err(DecodeError::Hive(e)),
        },
    }
}

/// `REG_EXPAND_SZ` values decode exactly as `REG_SZ` values do.
pub proof fn lemma_expand_sz_decodes_like_sz(val: HiveValue, fv: FormattedValue, include_json: bool)
    ensures
        decodable(val, Some(RegType::RegExpandSZ)) == decodable(val, Some(RegType::RegSZ)),
        decoded_as(fv, val, Some(RegType::RegExpandSZ), include_json)
            == decoded_as(fv, val, Some(RegType::RegSZ), include_json),
{
}

/// A value of type code 1 (`REG_SZ`) or 2 (`REG_EXPAND_SZ`) whose string
/// `s` `nt_hive` reads decodes, and decodes as that string: shown without
/// its trailing NULs, cut at 80 characters, and searched whole.
pub proof fn lemma_string_types_decode_as_strings(val: HiveValue, s: String, fv: FormattedValue, include_json: bool)
    requires
        type_code_result(val) == Ok::<u32, NtHiveError>(1) || type_code_result(val) == Ok::<u32, NtHiveError>(2),
        string_data_result(val) == Ok::<String, NtHiveError>(s),
    ensures
        decodable(val, kind_of(val)),
        decoded_as(fv, val, kind_of(val), include_json) ==> {
            &&& fv.human@ == truncate_spec(trim_trailing_nul(s@), 80)
            &&& fv.search@ == trim_trailing_nul(s@)
        },
{
    if type_code_result(val) == Ok::<u32, NtHiveError>(1) {
        assert(reg_type_of_code(1) == RegType::RegSZ);
    } else {
        assert(reg_type_of_code(2) == RegType::RegExpandSZ);
    }
}

/// A value of a type other than the string, number and multi-string types
/// (or of a type `nt_hive` does not know) is decoded as its raw bytes.
pub proof fn lemma_other_types_decode_as_bytes(val: HiveValue, fv: FormattedValue, kind: Option<RegType>, include_json: bool)
    requires
        kind != Some(RegType::RegSZ),
        kind != Some(RegType::RegExpandSZ),
        kind != Some(RegType::RegDWord),
        kind != Some(RegType::RegDWordBigEndian),
        kind != Some(RegType::RegQWord),
        kind != Some(RegType::RegMultiSZ),
    ensures
        decodable(val, kind) == raw_readable(val),
        decoded_as(fv, val, kind, include_json) == is_raw_form(fv, raw_data(val), include_json),
{
}

/// A value of type code 4 (`REG_DWORD`) or 5 (`REG_DWORD_BIG_ENDIAN`)
/// whose number `nt_hive` reads decodes as that number, in decimal and
/// in hexadecimal, for display and for search alike.
pub proof fn lemma_dword_types_decode_as_numbers(val: HiveValue, n: u32, fv: FormattedValue, include_json: bool)
    requires
        type_code_result(val) == Ok::<u32, NtHiveError>(4) || type_code_result(val) == Ok::<u32, NtHiveError>(5),
        dword_of(val) == Some(n),
    ensures
        decodable(val, kind_of(val)),
        decoded_as(fv, val, kind_of(val), include_json) ==> fv.human@ == dword_text(n) && fv.search@ == dword_text(n),
{
    if type_code_result(val) == Ok::<u32, NtHiveError>(4) {
        assert(reg_type_of_code(4) == RegType::RegDWord);
    } else {
        assert(reg_type_of_code(5) == RegType::RegDWordBigEndian);
    }
}

/// A value of type code 11 (`REG_QWORD`) whose number `nt_hive` reads
/// decodes as that number.
pub proof fn lemma_qword_type_decodes_as_number(val: HiveValue, n: u64, fv: FormattedValue, include_json: bool)
    requires
        type_code_result(val) == Ok::<u32, NtHiveError>(11),
        qword_of(val) == Some(n),
    ensures
        decodable(val, kind_of(val)),
        decoded_as(fv, val, kind_of(val), include_json) ==> fv.human@ == qword_text(n) && fv.search@ == qword_text(n),
{
    assert(reg_type_of_code(11) == RegType::RegQWord);
}

/// A value of type code 7 (`REG_MULTI_SZ`) decodes as its lines, searched
/// whole and shown cut at 80 characters.
pub proof fn lemma_multi_sz_decodes_as_lines(val: HiveValue, fv: FormattedValue, include_json: bool)
    requires
        type_code_result(val) == Ok::<u32, NtHiveError>(7),
        decoded_as(fv, val, kind_of(val), include_json),
    ensures
        multi_string_result(val) matches Ok(it) && {
            &&& fv.search@ == multi_text(trimmed_lines(multi_sz_lines(it)))
            &&& fv.human@ == truncate_spec(fv.search@, 80)
        },
{
    assert(reg_type_of_code(7) == RegType::RegMultiSZ);
}

} // verus!
