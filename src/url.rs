use vstd::prelude::*;
use crate::text::{chars_of, string_of};

verus! {

/// Start of a search query for completed sales, up to the session token.
pub const SEARCH_URL_START: &'static str = "http://www.ebay.de/sch/i.html?_from=R40&_trksid=";

/// The part between the session token and the escaped set number.
pub const SEARCH_URL_TERM: &'static str = "&_nkw=Lego+";

/// Page size, sold listings only, newest first, condition filter.
pub const SEARCH_URL_END: &'static str = "&_ipg=200&LH_Sold=1&_sop=1&LH_ItemCondition=3";

/// Characters that stand for themselves in a query value.
pub open spec fn is_unreserved(c: char) -> bool {
    ('a' <= c && c <= 'z') || ('A' <= c && c <= 'Z') || ('0' <= c && c <= '9') || c == '-' || c
        == '.' || c == '_' || c == '*'
}

/// The upper-case hexadecimal digit of `n % 16`.
pub open spec fn hex_digit(n: int) -> char {
    seq!['0', '1', '2', '3', '4', '5', '6', '7', '8', '9', 'A', 'B', 'C', 'D', 'E', 'F'][n % 16]
}

/// `%XX` for the byte `b`.
pub open spec fn percent(b: int) -> Seq<char> {
    seq!['%', hex_digit(b / 16), hex_digit(b % 16)]
}

/// The escape of one character in a query value: itself where unreserved,
/// `+` for a space, else `%XX` for each byte of its UTF-8 encoding.
pub open spec fn escape_char(c: char) -> Seq<char> {
    let v = c as u32 as int;
    if is_unreserved(c) {
        seq![c]
    } else if c == ' ' {
        seq!['+']
    } else if v < 0x80 {
        percent(v)
    } else if v < 0x800 {
        percent(0xC0 + v / 64) + percent(0x80 + v % 64)
    } else if v < 0x10000 {
        percent(0xE0 + v / 4096) + percent(0x80 + (v / 64) % 64) + percent(0x80 + v % 64)
    } else {
        percent(0xF0 + v / 262144) + percent(0x80 + (v / 4096) % 64) + percent(0x80 + (v / 64) % 64)
            + percent(0x80 + v % 64)
    }
}

/// The escape of a whole query value.
pub open spec fn escaped(s: Seq<char>) -> Seq<char>
    decreases s.len(),
{
    if s.len() == 0 {
        Seq::empty()
    } else {
        escaped(s.drop_last()) + escape_char(s.last())
    }
}

/// The search query for completed sales of set `set_number` with session
/// token `id`, used verbatim.
pub open spec fn search_url_of(id: Seq<char>, set_number: Seq<char>) -> Seq<char> {
    SEARCH_URL_START@ + id + SEARCH_URL_TERM@ + escaped(set_number) + SEARCH_URL_END@
}

fn hex_char(n: u32) -> (r: char)
    ensures
        r == hex_digit(n as int),
{
    let ghost digits = seq!['0', '1', '2', '3', '4', '5', '6', '7', '8', '9', 'A', 'B', 'C', 'D', 'E', 'F'];
    let d = n % 16;
    let r = match d {
        0 => '0',
        1 => '1',
        2 => '2',
        3 => '3',
        4 => '4',
        5 => '5',
        6 => '6',
        7 => '7',
        8 => '8',
        9 => '9',
        10 => 'A',
        11 => 'B',
        12 => 'C',
        13 => 'D',
        14 => 'E',
        _ => 'F',
    };
    assert(r == digits[d as int]);
    r
}

fn push_percent(out: &mut Vec<char>, b: u32)
    ensures
        final(out)@ == old(out)@ + percent(b as int),
{
    out.push('%');
    out.push(hex_char(b / 16));
    out.push(hex_char(b % 16));
    assert(final(out)@ =~= old(out)@ + percent(b as int));
}

fn push_escaped(out: &mut Vec<char>, c: char)
    ensures
        final(out)@ == old(out)@ + escape_char(c),
{
    let v = c as u32;
    let ghost start = out@;
    if ('a' <= c && c <= 'z') || ('A' <= c && c <= 'Z') || ('0' <= c && c <= '9') || c == '-'
        || c == '.' || c == '_' || c == '*' {
        out.push(c);
        assert(out@ =~= start + seq![c]);
    } else if c == ' ' {
        out.push('+');
        assert(out@ =~= start + seq!['+']);
    } else if v < 0x80 {
        push_percent(out, v);
    } else if v < 0x800 {
        push_percent(out, 0xC0 + v / 64);
        push_percent(out, 0x80 + v % 64);
        assert(out@ =~= start + (percent(0xC0 + v / 64) + percent(0x80 + v % 64)));
    } else if v < 0x10000 {
        push_percent(out, 0xE0 + v / 4096);
        push_percent(out, 0x80 + (v / 64) % 64);
        push_percent(out, 0x80 + v % 64);
        assert(out@ =~= start + (percent(0xE0 + v / 4096) + percent(0x80 + (v / 64) % 64) + percent(
            0x80 + v % 64,
        )));
    } else {
        push_percent(out, 0xF0 + v / 262144);
        push_percent(out, 0x80 + (v / 4096) % 64);
        push_percent(out, 0x80 + (v / 64) % 64);
        push_percent(out, 0x80 + v % 64);
        assert(out@ =~= start + (percent(0xF0 + v / 262144) + percent(0x80 + (v / 4096) % 64)
            + percent(0x80 + (v / 64) % 64) + percent(0x80 + v % 64)));
    }
}

/// Escapes `s` for use as a query value.
pub fn escape_query_value(s: &str) -> (r: String)
    ensures
        r@ == escaped(s@),
{
    let chars = chars_of(s);
    let mut out: Vec<char> = Vec::new();
    let mut i: usize = 0;
    while i < chars.len()
        invariant
            i <= chars.len(),
            out@ == escaped(chars@.take(i as int)),
        decreases chars.len() - i,
    {
        proof {
            assert(chars@.take(i as int + 1).drop_last() =~= chars@.take(i as int));
        }
        push_escaped(&mut out, chars[i]);
        i += 1;
    }
    assert(chars@.take(i as int) =~= chars@);
    string_of(&out)
}

/// The search query for completed sales of set `set_number`, with the
/// session token `id` taken verbatim and the set number escaped.
pub fn search_url(id: &str, set_number: &str) -> (r: String)
    ensures
        r@ == search_url_of(id@, set_number@),
{
    let mut out = chars_of(SEARCH_URL_START);
    let mut part = chars_of(id);
    out.append(&mut part);
    let mut part = chars_of(SEARCH_URL_TERM);
    out.append(&mut part);
    let mut part = chars_of(escape_query_value(set_number).as_str());
    out.append(&mut part);
    let mut part = chars_of(SEARCH_URL_END);
    out.append(&mut part);
    string_of(&out)
}

} // verus!
