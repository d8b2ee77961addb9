//! Turning GLPI's rich-text HTML into plain readable text.
use vstd::prelude::*;
use crate::text::{
    char_from_u32, char_is_whitespace, chars_eq_str, chars_of, extend, find, find_from,
    find_from_exec, is_scalar_value, is_whitespace, lowercase, occurs_at, slice_chars, str_lowercase,
    string_of, trim, trim_end, trim_end_char, trim_end_matches, trim_end_ws, trim_start_char, trim_start_matches, trim_start_ws, trim_ws,
    lemma_find_from_found,
};

verus! {

broadcast use vstd::string::group_string_axioms;

/// The number of bytes UTF-8 spends on `c`.
pub open spec fn utf8_len(c: char) -> nat {
    if (c as u32) < 0x80 {
        1
    } else if (c as u32) < 0x800 {
        2
    } else if (c as u32) < 0x10000 {
        3
    } else {
        4
    }
}

/// The number of bytes UTF-8 spends on `s`.
pub open spec fn byte_len(s: Seq<char>) -> nat
    decreases s.len(),
{
    if s.len() == 0 {
        0
    } else {
        byte_len(s.drop_last()) + utf8_len(s.last())
    }
}

/// The value of `c` as a digit in base `radix` (10 or 16), as `char::to_digit` reads it.
pub open spec fn digit_value(c: char, radix: u32) -> Option<u32> {
    if '0' <= c && c <= '9' {
        Some((c as u32 - '0' as u32) as u32)
    } else if radix == 16 && 'a' <= c && c <= 'f' {
        Some((c as u32 - 'a' as u32 + 10) as u32)
    } else if radix == 16 && 'A' <= c && c <= 'F' {
        Some((c as u32 - 'A' as u32 + 10) as u32)
    } else {
        None
    }
}

/// The number that a run of digits spells, or `None` when some char is no digit.
pub open spec fn digits_value(s: Seq<char>, radix: u32) -> Option<int>
    decreases s.len(),
{
    if s.len() == 0 {
        Some(0)
    } else {
        match (digits_value(s.drop_last(), radix), digit_value(s.last(), radix)) {
            (Some(v), Some(d)) => Some(v * radix + d),
            _ => None,
        }
    }
}

/// What `u32::from_str_radix` gives for `s`: an optional `+`, then at least one digit,
/// and a value that fits in 32 bits.
pub open spec fn parse_u32_spec(s: Seq<char>, radix: u32) -> Option<u32> {
    let body = if s.len() > 0 && s[0] == '+' {
        s.drop_first()
    } else {
        s
    };
    if body.len() == 0 {
        None
    } else {
        match digits_value(body, radix) {
            Some(v) => if v <= u32::MAX {
                Some(v as u32)
            } else {
                None
            },
            None => None,
        }
    }
}

fn digit_exec(c: char, radix: u32) -> (r: Option<u32>)
    requires
        radix == 10 || radix == 16,
    ensures
        r == digit_value(c, radix),
{
    if '0' <= c && c <= '9' {
        Some(c as u32 - '0' as u32)
    } else if radix == 16 && 'a' <= c && c <= 'f' {
        Some(c as u32 - 'a' as u32 + 10)
    } else if radix == 16 && 'A' <= c && c <= 'F' {
        Some(c as u32 - 'A' as u32 + 10)
    } else {
        None
    }
}

proof fn lemma_digits_value_nonneg(s: Seq<char>, radix: u32)
    requires
        radix == 10 || radix == 16,
    ensures
        digits_value(s, radix) matches Some(v) ==> v >= 0,
    decreases s.len(),
{
    if s.len() > 0 {
        lemma_digits_value_nonneg(s.drop_last(), radix);
    }
}

proof fn lemma_digits_value_grows(s: Seq<char>, radix: u32, k: int)
    requires
        radix == 10 || radix == 16,
        0 <= k <= s.len(),
        digits_value(s, radix) is Some,
    ensures
        digits_value(s.take(k), radix) is Some,
        digits_value(s.take(k), radix).unwrap() <= digits_value(s, radix).unwrap(),
    decreases s.len(),
{
    if k < s.len() {
        lemma_digits_value_nonneg(s.drop_last(), radix);
        assert(s.drop_last().take(k) =~= s.take(k));
        lemma_digits_value_grows(s.drop_last(), radix, k);
        let v = digits_value(s.drop_last(), radix).unwrap();
        assert(v * radix >= v) by (nonlinear_arith)
            requires
                v >= 0,
                radix >= 1,
        ;
    } else {
        assert(s.take(k) =~= s);
    }
}

/// Parses `s` as `u32::from_str_radix(s, radix)` does.
pub fn parse_u32(s: &[char], radix: u32) -> (r: Option<u32>)
    requires
        radix == 10 || radix == 16,
    ensures
        r == parse_u32_spec(s@, radix),
{
    let start: usize = if s.len() > 0 && s[0] == '+' {
        1
    } else {
        0
    };
    let ghost body = if s@.len() > 0 && s@[0] == '+' {
        s@.drop_first()
    } else {
        s@
    };
    assert(body =~= s@.subrange(start as int, s.len() as int));
    if start >= s.len() {
        return None;
    }
    let mut acc: u32 = 0;
    let mut i = start;
    while i < s.len()
        invariant
            start <= i <= s.len(),
            radix == 10 || radix == 16,
            body == s@.subrange(start as int, s.len() as int),
            body == (if s@.len() > 0 && s@[0] == '+' {
                s@.drop_first()
            } else {
                s@
            }),
            body.len() > 0,
            digits_value(body.take(i - start), radix) == Some(acc as int),
        decreases s.len() - i,
    {
        let ghost pre = body.take(i - start);
        assert(body.take(i + 1 - start).drop_last() =~= pre);
        assert(body.take(i + 1 - start).last() == s@[i as int]);
        match digit_exec(s[i], radix) {
            None => {
                proof {
                    assert(digits_value(body.take(i + 1 - start), radix) is None);
                    lemma_bad_digit_poisons(body, radix, i + 1 - start);
                }
                return None;
            },
            Some(d) => {
                let big: u64 = (acc as u64) * (radix as u64) + (d as u64);
                assert(big == acc * radix + d);
                assert(digits_value(body.take(i + 1 - start), radix) == Some(big as int));
                if big > u32::MAX as u64 {
                    proof {
                        lemma_overflow_persists(body, radix, i + 1 - start);
                    }
                    return None;
                }
                acc = big as u32;
            },
        }
        i = i + 1;
    }
    assert(body.take(s.len() - start) =~= body);
    Some(acc)
}

proof fn lemma_bad_digit_poisons(s: Seq<char>, radix: u32, k: int)
    requires
        0 <= k <= s.len(),
        digits_value(s.take(k), radix) is None,
    ensures
        digits_value(s, radix) is None,
    decreases s.len() - k,
{
    if k < s.len() {
        assert(s.take(k + 1).drop_last() =~= s.take(k));
        lemma_bad_digit_poisons(s, radix, k + 1);
    } else {
        assert(s.take(k) =~= s);
    }
}

proof fn lemma_overflow_persists(s: Seq<char>, radix: u32, k: int)
    requires
        radix == 10 || radix == 16,
        0 <= k <= s.len(),
        digits_value(s.take(k), radix) matches Some(v) && v > u32::MAX,
    ensures
        !(digits_value(s, radix) matches Some(v) && v <= u32::MAX),
{
    if digits_value(s, radix) is Some {
        lemma_digits_value_grows(s, radix, k);
    }
}

/// The char an HTML entity name stands for, as GLPI content uses them.
pub open spec fn decode_entity_spec(name: Seq<char>) -> Option<char> {
    if name == "lt"@ {
        Some('<')
    } else if name == "gt"@ {
        Some('>')
    } else if name == "amp"@ {
        Some('&')
    } else if name == "quot"@ {
        Some('"')
    } else if name == "apos"@ {
        Some('\'')
    } else if name == "nbsp"@ {
        Some(' ')
    } else if name.len() > 0 && name[0] == '#' {
        let digits = name.drop_first();
        let code = if digits.len() > 0 && (digits[0] == 'x' || digits[0] == 'X') {
            parse_u32_spec(digits.drop_first(), 16)
        } else {
            parse_u32_spec(digits, 10)
        };
        match code {
            Some(c) => if is_scalar_value(c) {
                Some(c as char)
            } else {
                None
            },
            None => None,
        }
    } else {
        None
    }
}

/// Decodes one entity name (what stands between `&` and `;`).
pub fn decode_entity_name(name: &[char]) -> (r: Option<char>)
    ensures
        r == decode_entity_spec(name@),
{
    if chars_eq_str(name, "lt") {
        Some('<')
    } else if chars_eq_str(name, "gt") {
        Some('>')
    } else if chars_eq_str(name, "amp") {
        Some('&')
    } else if chars_eq_str(name, "quot") {
        Some('"')
    } else if chars_eq_str(name, "apos") {
        Some('\'')
    } else if chars_eq_str(name, "nbsp") {
        Some(' ')
    } else if name.len() > 0 && name[0] == '#' {
        let digits = slice_chars(name, 1, name.len());
        assert(digits@ =~= name@.drop_first());
        let code = if digits.len() > 0 && (digits[0] == 'x' || digits[0] == 'X') {
            let hex = slice_chars(digits.as_slice(), 1, digits.len());
            assert(hex@ =~= digits@.drop_first());
            parse_u32(hex.as_slice(), 16)
        } else {
            parse_u32(digits.as_slice(), 10)
        };
        match code {
            Some(c) => char_from_u32(c),
            None => None,
        }
    } else {
        None
    }
}

/// The UTF-8 length of `c`.
fn utf8_len_exec(c: char) -> (r: usize)
    ensures
        r == utf8_len(c),
{
    let n = c as u32;
    if n < 0x80 {
        1
    } else if n < 0x800 {
        2
    } else if n < 0x10000 {
        3
    } else {
        4
    }
}

/// Whether `s` takes at most `limit` bytes in UTF-8.
fn byte_len_at_most(s: &[char], limit: usize) -> (r: bool)
    ensures
        r == (byte_len(s@) <= limit),
{
    let mut total: usize = 0;
    let mut i: usize = 0;
    while i < s.len()
        invariant
            i <= s.len(),
            total <= limit,
            total == byte_len(s@.take(i as int)),
        decreases s.len() - i,
    {
        assert(s@.take(i + 1).drop_last() =~= s@.take(i as int));
        let l = utf8_len_exec(s[i]);
        if l > limit - total {
            proof {
                lemma_byte_len_prefix(s@, i + 1);
            }
            return false;
        }
        total = total + l;
        i = i + 1;
    }
    assert(s@.take(s.len() as int) =~= s@);
    true
}

proof fn lemma_byte_len_prefix(s: Seq<char>, k: int)
    requires
        0 <= k <= s.len(),
    ensures
        byte_len(s.take(k)) <= byte_len(s),
    decreases s.len(),
{
    if k < s.len() {
        assert(s.drop_last().take(k) =~= s.take(k));
        lemma_byte_len_prefix(s.drop_last(), k);
    } else {
        assert(s.take(k) =~= s);
    }
}

/// Decodes the HTML entities of `s`: every `&name;` whose name is known (and at most ten
/// bytes long) becomes its char; any other `&` stays as it is.
pub open spec fn decode_entities_spec(s: Seq<char>) -> Seq<char>
    decreases s.len(),
{
    match find(s, seq!['&']) {
        None => s,
        Some(amp) => {
            proof {
                lemma_find_bounds(s, seq!['&']);
            }
            let head = s.take(amp);
            let after = s.subrange(amp + 1, s.len() as int);
            let plain = head.push('&') + decode_entities_spec(after);
            match find(after, seq![';']) {
                Some(len) => if byte_len(after.take(len)) <= 10 {
                    proof {
                        lemma_find_bounds(after, seq![';']);
                    }
                    match decode_entity_spec(after.take(len)) {
                        Some(c) => head.push(c) + decode_entities_spec(
                            after.subrange(len + 1, after.len() as int),
                        ),
                        None => plain,
                    }
                } else {
                    plain
                },
                None => plain,
            }
        },
    }
}

pub proof fn lemma_find_bounds(s: Seq<char>, pat: Seq<char>)
    ensures
        find(s, pat) matches Some(i) ==> 0 <= i && i + pat.len() <= s.len() && occurs_at(s, pat, i),
{
    lemma_find_from_found(s, pat, 0);
}

/// The chars of `s` from `pos` on.
pub open spec fn rest_of(s: Seq<char>, pos: int) -> Seq<char> {
    s.subrange(pos, s.len() as int)
}

pub proof fn lemma_find_shift(s: Seq<char>, pat: Seq<char>, pos: int, from: int)
    requires
        0 <= pos <= s.len(),
        0 <= from,
    ensures
        find_from(s, pat, pos + from) == (match find_from(rest_of(s, pos), pat, from) {
            Some(i) => Some(i + pos),
            None => None,
        }),
    decreases s.len() + 1 - (pos + from),
{
    let r = rest_of(s, pos);
    if pos + from + pat.len() > s.len() {
    } else {
        assert(s.subrange(pos + from, pos + from + pat.len()) =~= r.subrange(
            from,
            from + pat.len(),
        ));
        if !occurs_at(s, pat, pos + from) {
            lemma_find_shift(s, pat, pos, from + 1);
        }
    }
}

/// Decodes HTML entities.
pub fn decode_entities(input: &[char]) -> (r: Vec<char>)
    ensures
        r@ == decode_entities_spec(input@),
{
    let amp_pat = ['&'];
    let semi_pat = [';'];
    assert(amp_pat@ =~= seq!['&']);
    assert(semi_pat@ =~= seq![';']);
    let mut out: Vec<char> = Vec::new();
    let mut pos: usize = 0;
    assert(rest_of(input@, 0) =~= input@);
    while pos <= input.len()
        invariant
            pos <= input.len(),
            amp_pat@ == seq!['&'],
            semi_pat@ == seq![';'],
            decode_entities_spec(input@) == out@ + decode_entities_spec(rest_of(input@, pos as int)),
        decreases input.len() + 1 - pos,
    {
        let ghost rest = rest_of(input@, pos as int);
        proof {
            lemma_find_shift(input@, seq!['&'], pos as int, 0);
        }
        match find_from_exec(input, &amp_pat, pos) {
            None => {
                let tail = slice_chars(input, pos, input.len());
                extend(&mut out, tail.as_slice());
                return out;
            },
            Some(amp_abs) => {
                let ghost amp = amp_abs - pos;
                proof {
                    lemma_find_bounds(rest, seq!['&']);
                }
                let head = slice_chars(input, pos, amp_abs);
                assert(head@ =~= rest.take(amp));
                let after_start = amp_abs + 1;
                let ghost after = rest.subrange(amp + 1, rest.len() as int);
                assert(after =~= rest_of(input@, after_start as int));
                extend(&mut out, head.as_slice());
                proof {
                    lemma_find_shift(input@, seq![';'], after_start as int, 0);
                }
                let semi = find_from_exec(input, &semi_pat, after_start);
                let mut decoded: Option<char> = None;
                let mut next: usize = after_start;
                match semi {
                    Some(semi_abs) => {
                        let ghost len = semi_abs - after_start;
                        proof {
                            lemma_find_bounds(after, seq![';']);
                        }
                        let name = slice_chars(input, after_start, semi_abs);
                        assert(name@ =~= after.take(len));
                        if byte_len_at_most(name.as_slice(), 10) {
                            match decode_entity_name(name.as_slice()) {
                                Some(c) => {
                                    decoded = Some(c);
                                    next = semi_abs + 1;
                                    assert(rest_of(input@, next as int) =~= after.subrange(
                                        len + 1,
                                        after.len() as int,
                                    ));
                                },
                                None => {},
                            }
                        }
                    },
                    None => {},
                }
                match decoded {
                    Some(c) => out.push(c),
                    None => out.push('&'),
                }
                pos = next;
            },
        }
    }
    out
}

/// The chars of `s` before its first whitespace.
pub open spec fn take_until_ws(s: Seq<char>) -> Seq<char>
    decreases s.len(),
{
    if s.len() == 0 || char_is_whitespace(s[0]) {
        Seq::empty()
    } else {
        seq![s[0]] + take_until_ws(s.drop_first())
    }
}

/// The first whitespace-separated word of `s` (empty when there is none), as
/// `split_whitespace().next().unwrap_or("")` finds it.
pub open spec fn first_word(s: Seq<char>) -> Seq<char> {
    take_until_ws(trim_start_ws(s))
}

/// The lowercased name of a tag whose inside (between `<` and `>`) is `tag`: its first word
/// after any leading `/`, without the `/` that closes a self-closing tag (`<br/>`).
pub open spec fn tag_name(tag: Seq<char>) -> Seq<char> {
    str_lowercase(trim_end_char(first_word(trim_start_char(tag, '/')), '/'))
}

/// Tags that end a block of text.
pub open spec fn is_block_tag(name: Seq<char>) -> bool {
    name == "br"@ || name == "p"@ || name == "div"@ || name == "li"@ || name == "tr"@
}

/// The state of the tag scanner: text so far, the inside of the tag being read,
/// and whether a tag is being read.
pub struct ScanState {
    pub out: Seq<char>,
    pub tag: Seq<char>,
    pub in_tag: bool,
}

/// One step of the tag scanner.
pub open spec fn scan_step(st: ScanState, c: char) -> ScanState {
    if c == '<' {
        ScanState { out: st.out, tag: Seq::empty(), in_tag: true }
    } else if st.in_tag {
        if c == '>' {
            ScanState {
                out: if is_block_tag(tag_name(st.tag)) {
                    st.out.push('\n')
                } else {
                    st.out
                },
                tag: st.tag,
                in_tag: false,
            }
        } else {
            ScanState { out: st.out, tag: st.tag.push(c), in_tag: true }
        }
    } else {
        ScanState { out: st.out.push(c), tag: st.tag, in_tag: false }
    }
}

/// The scanner state after reading all of `s`.
pub open spec fn scan(s: Seq<char>) -> ScanState
    decreases s.len(),
{
    if s.len() == 0 {
        ScanState { out: Seq::empty(), tag: Seq::empty(), in_tag: false }
    } else {
        scan_step(scan(s.drop_last()), s.last())
    }
}

fn take_until_whitespace(s: &[char]) -> (r: Vec<char>)
    ensures
        r@ == take_until_ws(s@),
{
    let mut i: usize = 0;
    assert(s@.take(0) =~= Seq::<char>::empty());
    assert(s@.subrange(0, s.len() as int) =~= s@);
    assert(take_until_ws(s@) =~= s@.take(0) + take_until_ws(s@.subrange(0, s.len() as int)));
    while i < s.len() && !is_whitespace(s[i])
        invariant
            i <= s.len(),
            take_until_ws(s@) == s@.take(i as int) + take_until_ws(s@.subrange(i as int, s.len() as int)),
            forall|j: int| 0 <= j < i ==> !char_is_whitespace(s@[j]),
        decreases s.len() - i,
    {
        proof {
            let rest = s@.subrange(i as int, s.len() as int);
            assert(rest.drop_first() =~= s@.subrange(i + 1, s.len() as int));
            assert(s@.take(i + 1) =~= s@.take(i as int) + seq![rest[0]]);
        }
        i = i + 1;
    }
    proof {
        assert(s@.take(0) =~= Seq::<char>::empty());
        assert(s@.subrange(0, s.len() as int) =~= s@);
    }
    slice_chars(s, 0, i)
}

/// Whether the tag whose inside is `tag` ends a block.
fn ends_block(tag: &[char]) -> (r: bool)
    ensures
        r == is_block_tag(tag_name(tag@)),
{
    let t = trim_start_matches(tag, '/');
    let lead = trim_start_ws_exec(t.as_slice());
    let word = take_until_whitespace(lead.as_slice());
    let bare = trim_end_matches(word.as_slice(), '/');
    let lower = lowercase(string_of(bare.as_slice()).as_str());
    let name = chars_of(lower.as_str());
    let n = name.as_slice();
    chars_eq_str(n, "br") || chars_eq_str(n, "p") || chars_eq_str(n, "div") || chars_eq_str(n, "li")
        || chars_eq_str(n, "tr")
}

fn trim_start_ws_exec(s: &[char]) -> (r: Vec<char>)
    ensures
        r@ == trim_start_ws(s@),
{
    let mut lo: usize = 0;
    assert(s@.subrange(0, s.len() as int) =~= s@);
    while lo < s.len() && is_whitespace(s[lo])
        invariant
            lo <= s.len(),
            trim_start_ws(s@) == trim_start_ws(s@.subrange(lo as int, s.len() as int)),
        decreases s.len() - lo,
    {
        assert(s@.subrange(lo as int, s.len() as int).drop_first() =~= s@.subrange(
            lo + 1,
            s.len() as int,
        ));
        lo = lo + 1;
    }
    slice_chars(s, lo, s.len())
}

/// Drops the tags of `s`, turning block-ending tags into newlines.
fn scan_tags(s: &[char]) -> (r: Vec<char>)
    ensures
        r@ == scan(s@).out,
{
    let mut out: Vec<char> = Vec::new();
    let mut tag: Vec<char> = Vec::new();
    let mut in_tag = false;
    let mut i: usize = 0;
    while i < s.len()
        invariant
            i <= s.len(),
            scan(s@.take(i as int)) == (ScanState { out: out@, tag: tag@, in_tag: in_tag }),
        decreases s.len() - i,
    {
        assert(s@.take(i + 1).drop_last() =~= s@.take(i as int));
        let c = s[i];
        if c == '<' {
            in_tag = true;
            tag = Vec::new();
            assert(tag@ =~= Seq::<char>::empty());
        } else if in_tag {
            if c == '>' {
                in_tag = false;
                if ends_block(tag.as_slice()) {
                    out.push('\n');
                }
            } else {
                tag.push(c);
            }
        } else {
            out.push(c);
        }
        i = i + 1;
    }
    assert(s@.take(s.len() as int) =~= s@);
    out
}

/// Drops one trailing carriage return.
pub open spec fn strip_cr(l: Seq<char>) -> Seq<char> {
    if l.len() > 0 && l.last() == '\r' {
        l.drop_last()
    } else {
        l
    }
}

/// The lines of `s`, as `str::lines` yields them: split at each `\n`, a `\r` before the
/// `\n` dropped, and no empty line after a final `\n`.
pub open spec fn lines_spec(s: Seq<char>) -> Seq<Seq<char>>
    decreases s.len(),
{
    match find(s, seq!['\n']) {
        None => if s.len() == 0 {
            Seq::empty()
        } else {
            seq![s]
        },
        Some(i) => {
            proof {
                lemma_find_bounds(s, seq!['\n']);
            }
            seq![strip_cr(s.take(i))] + lines_spec(s.subrange(i + 1, s.len() as int))
        },
    }
}

/// Writes the lines, each followed by `\n` and without trailing whitespace, skipping a
/// blank line that follows another blank line.
pub open spec fn collapse_from(lines: Seq<Seq<char>>, prev_blank: bool) -> Seq<char>
    decreases lines.len(),
{
    if lines.len() == 0 {
        Seq::empty()
    } else {
        let l = lines[0];
        let blank = trim_ws(l).len() == 0;
        if blank && prev_blank {
            collapse_from(lines.drop_first(), true)
        } else {
            trim_end_ws(l) + seq!['\n'] + collapse_from(lines.drop_first(), blank)
        }
    }
}

/// `text` with runs of blank lines collapsed to one and trailing whitespace removed.
pub open spec fn collapse_blank_lines_spec(text: Seq<char>) -> Seq<char> {
    trim_end_ws(collapse_from(lines_spec(text), false))
}

/// What `strip_html` makes of `input`.
pub open spec fn strip_html_spec(input: Seq<char>) -> Seq<char> {
    collapse_blank_lines_spec(trim_ws(scan(decode_entities_spec(input)).out))
}

/// The views of a list of char vectors.
pub open spec fn lines_view(v: Seq<Vec<char>>) -> Seq<Seq<char>> {
    v.map_values(|l: Vec<char>| l@)
}

fn lines_exec(s: &[char]) -> (r: Vec<Vec<char>>)
    ensures
        lines_view(r@) == lines_spec(s@),
{
    let nl = ['\n'];
    assert(nl@ =~= seq!['\n']);
    let mut r: Vec<Vec<char>> = Vec::new();
    let mut pos: usize = 0;
    assert(rest_of(s@, 0) =~= s@);
    while pos < s.len()
        invariant
            pos <= s.len(),
            nl@ == seq!['\n'],
            lines_spec(s@) == lines_view(r@) + lines_spec(rest_of(s@, pos as int)),
        decreases s.len() - pos,
    {
        let ghost rest = rest_of(s@, pos as int);
        proof {
            lemma_find_shift(s@, seq!['\n'], pos as int, 0);
        }
        match find_from_exec(s, &nl, pos) {
            None => {
                let line = slice_chars(s, pos, s.len());
                let ghost before = lines_view(r@);
                r.push(line);
                assert(lines_view(r@) =~= before + seq![rest]);
                assert(rest_of(s@, s.len() as int) =~= Seq::<char>::empty());
                assert(lines_spec(rest_of(s@, s.len() as int)) =~= Seq::<Seq<char>>::empty());
                pos = s.len();
            },
            Some(nl_abs) => {
                proof {
                    lemma_find_bounds(rest, seq!['\n']);
                }
                let mut end = nl_abs;
                if end > pos && s[end - 1] == '\r' {
                    end = end - 1;
                }
                let line = slice_chars(s, pos, end);
                assert(line@ =~= strip_cr(rest.take(nl_abs - pos)));
                let ghost before = lines_view(r@);
                r.push(line);
                assert(lines_view(r@) =~= before + seq![line@]);
                assert(rest_of(s@, nl_abs + 1) =~= rest.subrange(nl_abs - pos + 1, rest.len() as int));
                pos = nl_abs + 1;
            },
        }
    }
    assert(rest_of(s@, pos as int) =~= Seq::<char>::empty());
    assert(lines_spec(rest_of(s@, pos as int)) =~= Seq::<Seq<char>>::empty());
    assert(lines_view(r@) + Seq::<Seq<char>>::empty() =~= lines_view(r@));
    r
}

fn collapse_blank_lines(text: &[char]) -> (r: Vec<char>)
    ensures
        r@ == collapse_blank_lines_spec(text@),
{
    let lines = lines_exec(text);
    let ghost all = lines_view(lines@);
    let mut out: Vec<char> = Vec::new();
    let mut prev_blank = false;
    let mut i: usize = 0;
    assert(all.skip(0) =~= all);
    assert(collapse_from(all, false) =~= out@ + collapse_from(all.skip(0), prev_blank));
    while i < lines.len()
        invariant
            i <= lines.len(),
            all == lines_view(lines@),
            collapse_from(all, false) == out@ + collapse_from(all.skip(i as int), prev_blank),
        decreases lines.len() - i,
    {
        assert(all.skip(i as int).drop_first() =~= all.skip(i + 1));
        assert(all.skip(i as int)[0] == lines@[i as int]@);
        let t = trim(lines[i].as_slice());
        let blank = t.len() == 0;
        if blank && prev_blank {
        } else {
            let e = trim_end(lines[i].as_slice());
            extend(&mut out, e.as_slice());
            out.push('\n');
        }
        prev_blank = blank;
        i = i + 1;
    }
    assert(all.skip(lines.len() as int) =~= Seq::<Seq<char>>::empty());
    trim_end(out.as_slice())
}

/// Decodes HTML entities and drops tags, turning GLPI's WYSIWYG markup into plain,
/// readable text. Block level tags (`<p>`, `<br>`, `<div>`, list items) become newlines
/// so paragraph structure survives; everything else is dropped.
pub fn strip_html_chars(input: &[char]) -> (r: Vec<char>)
    ensures
        r@ == strip_html_spec(input@),
{
    let decoded = decode_entities(input);
    let scanned = scan_tags(decoded.as_slice());
    let trimmed = trim(scanned.as_slice());
    collapse_blank_lines(trimmed.as_slice())
}

} // verus!
