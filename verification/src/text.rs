//! Text search and assembly on characters.

use vstd::prelude::*;

verus! {

/// `needle` stands in `haystack` at position `i`.
pub open spec fn occurs_at(haystack: Seq<char>, needle: Seq<char>, i: int) -> bool {
    0 <= i && i + needle.len() <= haystack.len() && haystack.subrange(i, i + needle.len())
        == needle
}

/// `needle` stands somewhere in `haystack`.
pub open spec fn occurs_in(haystack: Seq<char>, needle: Seq<char>) -> bool {
    exists|i: int| occurs_at(haystack, needle, i)
}

/// The characters of `s`.
pub fn chars_of(s: &str) -> (r: Vec<char>)
    ensures
        r@ == s@,
{
    let mut out: Vec<char> = Vec::new();
    for c in it: s.chars()
        invariant
            out@ == s@.take(it.index()),
            it.seq() == s@,
    {
        out.push(c);
    }
    out
}

/// Whether `needle` stands in `haystack` at position `i`.
fn matches_at(haystack: &Vec<char>, needle: &Vec<char>, i: usize) -> (r: bool)
    requires
        i + needle@.len() <= haystack@.len(),
    ensures
        r == occurs_at(haystack@, needle@, i as int),
{
    let total: usize = haystack.len();
    let mut k: usize = 0;
    while k < needle.len()
        invariant
            k <= needle@.len(),
            total == haystack@.len(),
            i + needle@.len() <= haystack@.len(),
            forall|j: int| 0 <= j < k ==> haystack@[i + j] == needle@[j],
        decreases needle@.len() - k,
    {
        if haystack[i + k] != needle[k] {
            proof {
                let sub = haystack@.subrange(i as int, i + needle@.len());
                assert(sub[k as int] != needle@[k as int]);
            }
            return false;
        }
        k = k + 1;
    }
    assert(haystack@.subrange(i as int, i + needle@.len()) =~= needle@);
    true
}

/// Whether `needle` stands somewhere in `haystack`.
pub fn contains(haystack: &str, needle: &str) -> (r: bool)
    ensures
        r == occurs_in(haystack@, needle@),
{
    let h = chars_of(haystack);
    let n = chars_of(needle);
    if n.len() > h.len() {
        return false;
    }
    let last: usize = h.len() - n.len();
    let mut i: usize = 0;
    while i <= last
        invariant
            h@ == haystack@,
            n@ == needle@,
            last == h@.len() - n@.len(),
            i <= last + 1,
            forall|j: int| 0 <= j < i ==> !occurs_at(h@, n@, j),
        decreases last + 1 - i,
    {
        if matches_at(&h, &n, i) {
            return true;
        }
        if i == last {
            return false;
        }
        i = i + 1;
    }
    false
}

/// The code point of `c`, with an ASCII capital replaced by its small letter.
pub open spec fn ascii_fold(c: char) -> int {
    if 'A' <= c && c <= 'Z' {
        c as int + 32
    } else {
        c as int
    }
}

/// The two texts agree up to the case of ASCII letters.
pub open spec fn same_ignoring_ascii_case(a: Seq<char>, b: Seq<char>) -> bool {
    a.len() == b.len() && forall|i: int|
        0 <= i < a.len() ==> ascii_fold(#[trigger] a[i]) == ascii_fold(b[i])
}

fn fold_ascii(c: char) -> (r: u32)
    ensures
        r as int == ascii_fold(c),
{
    if 'A' <= c && c <= 'Z' {
        c as u32 + 32
    } else {
        c as u32
    }
}

/// Whether the two texts agree up to the case of ASCII letters.
pub fn eq_ignore_ascii_case(a: &str, b: &str) -> (r: bool)
    ensures
        r == same_ignoring_ascii_case(a@, b@),
{
    let x = chars_of(a);
    let y = chars_of(b);
    if x.len() != y.len() {
        return false;
    }
    let mut i: usize = 0;
    while i < x.len()
        invariant
            x@ == a@,
            y@ == b@,
            x@.len() == y@.len(),
            i <= x@.len(),
            forall|j: int| 0 <= j < i ==> ascii_fold(#[trigger] x@[j]) == ascii_fold(y@[j]),
        decreases x@.len() - i,
    {
        if fold_ascii(x[i]) != fold_ascii(y[i]) {
            return false;
        }
        i = i + 1;
    }
    true
}

/// Whether the two character vectors hold the same text.
pub fn same_chars(a: &Vec<char>, b: &Vec<char>) -> (r: bool)
    ensures
        r == (a@ == b@),
{
    if a.len() != b.len() {
        return false;
    }
    let mut i: usize = 0;
    while i < a.len()
        invariant
            a@.len() == b@.len(),
            i <= a@.len(),
            forall|j: int| 0 <= j < i ==> a@[j] == b@[j],
        decreases a@.len() - i,
    {
        if a[i] != b[i] {
            return false;
        }
        i = i + 1;
    }
    assert(a@ =~= b@);
    true
}

/// Whether the two texts are equal.
pub fn same_text(a: &str, b: &str) -> (r: bool)
    ensures
        r == (a@ == b@),
{
    let x = chars_of(a);
    let y = chars_of(b);
    same_chars(&x, &y)
}

/// The decimal digit with value `d`.
pub open spec fn digit(d: int) -> char
    recommends
        0 <= d < 10,
{
    ('0' as int + d) as char
}

/// `n` in decimal, without leading zeros.
pub open spec fn decimal(n: nat) -> Seq<char>
    decreases n,
{
    if n < 10 {
        seq![digit(n as int)]
    } else {
        decimal(n / 10).push(digit((n % 10) as int))
    }
}

/// `n` in decimal, with a leading `-` when negative.
pub open spec fn decimal_int(n: int) -> Seq<char> {
    if n < 0 {
        "-"@ + decimal((-n) as nat)
    } else {
        decimal(n as nat)
    }
}

fn digit_text(d: u64) -> (r: &'static str)
    requires
        d < 10,
    ensures
        r@ == seq![digit(d as int)],
{
    proof {
        reveal_strlit("0");
        reveal_strlit("1");
        reveal_strlit("2");
        reveal_strlit("3");
        reveal_strlit("4");
        reveal_strlit("5");
        reveal_strlit("6");
        reveal_strlit("7");
        reveal_strlit("8");
        reveal_strlit("9");
    }
    if d == 0 {
        "0"
    } else if d == 1 {
        "1"
    } else if d == 2 {
        "2"
    } else if d == 3 {
        "3"
    } else if d == 4 {
        "4"
    } else if d == 5 {
        "5"
    } else if d == 6 {
        "6"
    } else if d == 7 {
        "7"
    } else if d == 8 {
        "8"
    } else {
        "9"
    }
}

/// `n` in decimal.
pub fn decimal_text(n: u64) -> (r: String)
    ensures
        r@ == decimal(n as nat),
    decreases n,
{
    if n < 10 {
        digit_text(n).to_owned()
    } else {
        let mut out = decimal_text(n / 10);
        out.append(digit_text(n % 10));
        assert(out@ =~= decimal(n as nat));
        out
    }
}

/// `n` in decimal, with a leading `-` when negative.
pub fn decimal_int_text(n: i64) -> (r: String)
    ensures
        r@ == decimal_int(n as int),
{
    if n < 0 {
        let mut out = "-".to_owned();
        let magnitude: u64 = (-(n + 1)) as u64 + 1;
        let digits = decimal_text(magnitude);
        out.append(digits.as_str());
        out
    } else {
        decimal_text(n as u64)
    }
}

/// The text in lower case, by the Unicode rules.
pub uninterp spec fn lowercase(text: Seq<char>) -> Seq<char>;

/// `str::to_lowercase`: the text in lower case, by the Unicode rules.
#[verifier::external_body]
pub(crate) fn to_lowercase(text: &str) -> (r: String)
    ensures
        r@ == lowercase(text@),
{
    text.to_lowercase()
}

/// The character is white space: it has the Unicode property `White_Space`.
pub open spec fn white_space(c: char) -> bool {
    ||| '\u{9}' <= c && c <= '\u{d}'
    ||| c == ' '
    ||| c == '\u{85}'
    ||| c == '\u{a0}'
    ||| c == '\u{1680}'
    ||| '\u{2000}' <= c && c <= '\u{200a}'
    ||| c == '\u{2028}'
    ||| c == '\u{2029}'
    ||| c == '\u{202f}'
    ||| c == '\u{205f}'
    ||| c == '\u{3000}'
}

/// Whether the character is white space.
fn is_white_space(c: char) -> (r: bool)
    ensures
        r == white_space(c),
{
    ('\u{9}' <= c && c <= '\u{d}') || c == ' ' || c == '\u{85}' || c == '\u{a0}' || c
        == '\u{1680}' || ('\u{2000}' <= c && c <= '\u{200a}') || c == '\u{2028}' || c
        == '\u{2029}' || c == '\u{202f}' || c == '\u{205f}' || c == '\u{3000}'
}

/// The text without the white space at its start.
pub open spec fn trimmed_start(s: Seq<char>) -> Seq<char>
    decreases s.len(),
{
    if s.len() > 0 && white_space(s[0]) {
        trimmed_start(s.drop_first())
    } else {
        s
    }
}

/// The text without the white space at its end.
pub open spec fn trimmed_end(s: Seq<char>) -> Seq<char>
    decreases s.len(),
{
    if s.len() > 0 && white_space(s.last()) {
        trimmed_end(s.drop_last())
    } else {
        s
    }
}

/// The text without the white space at either end.
pub open spec fn trimmed(s: Seq<char>) -> Seq<char> {
    trimmed_end(trimmed_start(s))
}

/// The text without the white space at either end.
pub fn trim(text: &str) -> (r: &str)
    ensures
        r@ == trimmed(text@),
{
    let all = chars_of(text);
    let mut lo: usize = 0;
    assert(all@.skip(0) =~= all@);
    while lo < all.len() && is_white_space(all[lo])
        invariant
            all@ == text@,
            lo <= all@.len(),
            trimmed_start(all@.skip(lo as int)) == trimmed_start(text@),
        decreases all@.len() - lo,
    {
        assert(all@.skip(lo as int).drop_first() =~= all@.skip(lo + 1));
        lo = lo + 1;
    }
    let ghost body = all@.skip(lo as int);
    assert(body == trimmed_start(text@));
    let mut hi: usize = all.len();
    assert(all@.subrange(lo as int, hi as int) =~= body);
    while hi > lo && is_white_space(all[hi - 1])
        invariant
            lo <= hi <= all@.len(),
            trimmed_end(all@.subrange(lo as int, hi as int)) == trimmed_end(body),
        decreases hi,
    {
        assert(all@.subrange(lo as int, hi as int).drop_last() =~= all@.subrange(
            lo as int,
            hi - 1,
        ));
        hi = hi - 1;
    }
    text.substring_char(lo, hi)
}

/// The pieces of a text between its slashes.
pub open spec fn split_at_slashes(text: Seq<char>) -> Seq<Seq<char>>
    decreases text.len(),
{
    if text.len() == 0 {
        seq![Seq::empty()]
    } else {
        let front = split_at_slashes(text.drop_last());
        if text.last() == '/' {
            front.push(Seq::empty())
        } else {
            front.drop_last().push(front.last().push(text.last()))
        }
    }
}

/// The pieces of a text between its slashes.
pub fn split_slashes<'a>(text: &'a str) -> (r: Vec<&'a str>)
    ensures
        r@.map_values(|s: &str| s@) == split_at_slashes(text@),
{
    let ghost view = |s: &str| s@;
    let all = chars_of(text);
    let mut out: Vec<&'a str> = Vec::new();
    let mut start: usize = 0;
    let mut i: usize = 0;
    assert(all@.take(0) =~= Seq::<char>::empty());
    assert(all@.subrange(0, 0) =~= Seq::<char>::empty());
    assert(out@.map_values(view).push(all@.subrange(0, 0)) =~= split_at_slashes(all@.take(0)));
    while i < all.len()
        invariant
            view == (|s: &str| s@),
            all@ == text@,
            start <= i <= all@.len(),
            split_at_slashes(all@.take(i as int)) == out@.map_values(view).push(
                all@.subrange(start as int, i as int),
            ),
        decreases all@.len() - i,
    {
        let ghost before = out@.map_values(view);
        let ghost piece = all@.subrange(start as int, i as int);
        assert(all@.take(i + 1).drop_last() =~= all@.take(i as int));
        assert(all@.take(i + 1).last() == all@[i as int]);
        if all[i] == '/' {
            out.push(text.substring_char(start, i));
            start = i + 1;
            assert(out@.map_values(view) =~= before.push(piece));
            assert(all@.subrange(start as int, i + 1) =~= Seq::<char>::empty());
        } else {
            assert(all@.subrange(start as int, i + 1) =~= piece.push(all@[i as int]));
            assert(before.push(piece).drop_last() =~= before);
        }
        i = i + 1;
    }
    assert(all@.take(i as int) =~= all@);
    let ghost before = out@.map_values(view);
    out.push(text.substring_char(start, i));
    assert(out@.map_values(view) =~= before.push(all@.subrange(start as int, i as int)));
    out
}

/// A piece without a slash that is put behind a text lengthens the last piece of
/// the text.
pub(crate) proof fn lemma_split_longer(text: Seq<char>, piece: Seq<char>)
    requires
        !piece.contains('/'),
    ensures
        split_at_slashes(text).len() > 0,
        split_at_slashes(text + piece) == split_at_slashes(text).drop_last().push(
            split_at_slashes(text).last() + piece,
        ),
    decreases text.len() + piece.len(),
{
    if piece.len() == 0 {
        if text.len() > 0 {
            lemma_split_longer(text.drop_last(), piece);
        }
        assert(text + piece =~= text);
        let pieces = split_at_slashes(text);
        assert(pieces.last() + piece =~= pieces.last());
        assert(pieces.drop_last().push(pieces.last()) =~= pieces);
    } else {
        let less = piece.drop_last();
        assert(!less.contains('/')) by {
            if less.contains('/') {
                let i = choose|i: int| 0 <= i < less.len() && less[i] == '/';
                assert(piece[i] == '/');
            }
        }
        lemma_split_longer(text, less);
        assert((text + piece).drop_last() =~= text + less);
        assert((text + piece).last() == piece.last());
        assert(piece[piece.len() - 1] != '/');
        let pieces = split_at_slashes(text);
        let front = split_at_slashes(text + less);
        assert(front.drop_last() =~= pieces.drop_last());
        assert((pieces.last() + less).push(piece.last()) =~= pieces.last() + piece);
    }
}

/// A text contains another just when the other stands in it, letter by letter, from
/// some place on.
pub proof fn contained_text_stands_somewhere(haystack: &str, needle: &str, r: bool)
    requires
        call_ensures(contains, (haystack, needle), r),
    ensures
        r ==> exists|i: int|
            0 <= i && i + needle@.len() <= haystack@.len() && #[trigger] haystack@.subrange(
                i,
                i + needle@.len(),
            ) == needle@,
        forall|i: int|
            0 <= i && i + needle@.len() <= haystack@.len() && #[trigger] haystack@.subrange(
                i,
                i + needle@.len(),
            ) == needle@ ==> r,
        occurs_in(haystack@, needle@) == r,
{
    if r {
        let i = choose|i: int| #[trigger] occurs_at(haystack@, needle@, i);
        assert(haystack@.subrange(i, i + needle@.len()) =~= needle@);
    }
    assert forall|i: int|
        0 <= i && i + needle@.len() <= haystack@.len() && #[trigger] haystack@.subrange(
            i,
            i + needle@.len(),
        ) == needle@ implies r by {
        assert forall|j: int| 0 <= j < needle@.len() implies haystack@[i + j] == needle@[j] by {
            assert(haystack@.subrange(i, i + needle@.len())[j] == haystack@[i + j]);
        }
        assert(occurs_at(haystack@, needle@, i));
    }
}

/// Trimming cuts white space off both ends and nothing else, and leaves none there.
pub proof fn trimming_cuts_white_space_only(text: &str, r: &str)
    requires
        call_ensures(trim, (text,), r),
    ensures
        r@ == trimmed(text@),
        exists|lo: int, hi: int| #[trigger] is_core_of(text@, lo, hi) && r@ == text@.subrange(lo, hi),
        r@.len() > 0 ==> !white_space(r@[0]) && !white_space(r@.last()),
{
    lemma_trimmed_start(text@);
    let body = trimmed_start(text@);
    let lo = text@.len() - body.len();
    lemma_trimmed_end(body);
    let core = trimmed_end(body);
    let hi = lo + core.len();
    assert(core =~= text@.subrange(lo, hi));
    assert forall|i: int| hi <= i < text@.len() implies white_space(#[trigger] text@[i]) by {
        assert(body[i - lo] == text@[i]);
    }
    assert(is_core_of(text@, lo, hi));
    if core.len() > 0 {
        assert(core[0] == body[0]);
    }
}

/// All that lies outside this part of the text is white space.
pub open spec fn is_core_of(text: Seq<char>, lo: int, hi: int) -> bool {
    &&& 0 <= lo <= hi <= text.len()
    &&& forall|i: int| 0 <= i < lo ==> white_space(#[trigger] text[i])
    &&& forall|i: int| hi <= i < text.len() ==> white_space(#[trigger] text[i])
}

proof fn lemma_trimmed_start(s: Seq<char>)
    ensures
        trimmed_start(s).len() <= s.len(),
        trimmed_start(s) == s.skip(s.len() - trimmed_start(s).len()),
        trimmed_start(s).len() > 0 ==> !white_space(trimmed_start(s)[0]),
        forall|i: int|
            0 <= i < s.len() - trimmed_start(s).len() ==> white_space(#[trigger] s[i]),
    decreases s.len(),
{
    if s.len() > 0 && white_space(s[0]) {
        let rest = s.drop_first();
        lemma_trimmed_start(rest);
        assert forall|i: int| 0 <= i < s.len() - trimmed_start(s).len() implies white_space(
            #[trigger] s[i],
        ) by {
            if i > 0 {
                assert(rest[i - 1] == s[i]);
            }
        }
        assert(trimmed_start(s) =~= s.skip(s.len() - trimmed_start(s).len()));
    } else {
        assert(s.skip(0) =~= s);
    }
}

proof fn lemma_trimmed_end(s: Seq<char>)
    ensures
        trimmed_end(s).len() <= s.len(),
        trimmed_end(s) == s.take(trimmed_end(s).len() as int),
        trimmed_end(s).len() > 0 ==> !white_space(trimmed_end(s).last()),
        forall|i: int| trimmed_end(s).len() <= i < s.len() ==> white_space(#[trigger] s[i]),
    decreases s.len(),
{
    if s.len() > 0 && white_space(s.last()) {
        let front = s.drop_last();
        lemma_trimmed_end(front);
        assert forall|i: int| trimmed_end(s).len() <= i < s.len() implies white_space(
            #[trigger] s[i],
        ) by {
            if i < front.len() {
                assert(front[i] == s[i]);
            }
        }
        assert(trimmed_end(s) =~= s.take(trimmed_end(s).len() as int));
    } else {
        assert(s.take(s.len() as int) =~= s);
    }
}

/// White space are the tabs and line ends, the blanks of every width, and the
/// separators of lines and paragraphs. No other character is.
pub proof fn white_space_by_code_point(c: char)
    ensures
        white_space(c) <==> 9 <= c as u32 <= 13 || c as u32 == 32 || c as u32 == 0x85 || c as u32
            == 0xA0 || c as u32 == 0x1680 || 0x2000 <= c as u32 <= 0x200A || c as u32 == 0x2028
            || c as u32 == 0x2029 || c as u32 == 0x202F || c as u32 == 0x205F || c as u32
            == 0x3000,
{
}

/// Two texts that are compared without regard to ASCII case agree in each place, but
/// for capitals and their small letters.
pub proof fn ascii_case_alone_is_ignored(a: &str, b: &str, r: bool)
    requires
        call_ensures(eq_ignore_ascii_case, (a, b), r),
    ensures
        r == same_ignoring_ascii_case(a@, b@),
        r <==> a@.len() == b@.len() && forall|i: int|
            0 <= i < a@.len() ==> (#[trigger] a@[i] == b@[i] || ('A' <= a@[i] && a@[i] <= 'Z'
                && b@[i] as int == a@[i] as int + 32) || ('A' <= b@[i] && b@[i] <= 'Z'
                && a@[i] as int == b@[i] as int + 32)),
{
    if a@.len() == b@.len() {
        assert forall|i: int| 0 <= i < a@.len() implies (ascii_fold(a@[i]) == ascii_fold(b@[i])
            <==> (#[trigger] a@[i] == b@[i] || ('A' <= a@[i] && a@[i] <= 'Z' && b@[i] as int
            == a@[i] as int + 32) || ('A' <= b@[i] && b@[i] <= 'Z' && a@[i] as int == b@[i] as int
            + 32))) by {}
    }
}

/// Two texts are the same just when they agree letter by letter.
pub proof fn same_texts_agree_letter_by_letter(a: &str, b: &str, r: bool)
    requires
        call_ensures(same_text, (a, b), r),
    ensures
        r <==> a@.len() == b@.len() && forall|i: int|
            0 <= i < a@.len() ==> #[trigger] a@[i] == b@[i],
{
    if a@.len() == b@.len() && (forall|i: int| 0 <= i < a@.len() ==> #[trigger] a@[i] == b@[i]) {
        assert(a@ =~= b@);
    }
}

/// The number that a row of digits stands for.
pub open spec fn number_of(digits: Seq<char>) -> int
    decreases digits.len(),
{
    if digits.len() == 0 {
        0
    } else {
        10 * number_of(digits.drop_last()) + (digits.last() as int - '0' as int)
    }
}

/// A number in decimal is a row of digits that stands for it, without leading zeros.
pub proof fn decimal_stands_for_its_number(n: u64, r: String)
    requires
        call_ensures(decimal_text, (n,), r),
    ensures
        number_of(r@) == n,
        r@.len() > 0,
        forall|i: int| 0 <= i < r@.len() ==> '0' <= #[trigger] r@[i] && r@[i] <= '9',
        r@.len() > 1 ==> r@[0] != '0',
{
    lemma_decimal(n as nat);
}

proof fn lemma_decimal(n: nat)
    ensures
        number_of(decimal(n)) == n,
        decimal(n).len() > 0,
        forall|i: int| 0 <= i < decimal(n).len() ==> '0' <= #[trigger] decimal(n)[i] && decimal(n)[i]
            <= '9',
        n > 0 ==> decimal(n)[0] != '0',
    decreases n,
{
    reveal_with_fuel(number_of, 2);
    if n < 10 {
        assert(decimal(n).drop_last() =~= Seq::<char>::empty());
    } else {
        let front = decimal(n / 10);
        let d = digit((n % 10) as int);
        lemma_decimal(n / 10);
        assert(decimal(n) == front.push(d));
        assert(decimal(n).drop_last() =~= front);
        assert(decimal(n).last() == d);
    }
}

/// A negative number has a minus sign before its digits, and another one has none.
pub proof fn sign_comes_before_the_digits(n: i64, r: String)
    requires
        call_ensures(decimal_int_text, (n,), r),
    ensures
        n >= 0 ==> number_of(r@) == n,
        n < 0 ==> r@.len() > 1 && r@[0] == '-' && number_of(r@.skip(1)) == -n,
{
    reveal_strlit("-");
    if n < 0 {
        lemma_decimal((-n) as nat);
        assert(r@.skip(1) =~= decimal((-n) as nat));
    } else {
        lemma_decimal(n as nat);
    }
}

/// Splitting at slashes is undone by joining with slashes, and no piece has a slash
/// in it.
pub proof fn pieces_make_up_the_text(text: &str, r: Vec<&str>, i: int)
    requires
        call_ensures(split_slashes, (text,), r),
    ensures
        r@.len() > 0,
        crate::scope_tree::slashed(r@.map_values(|s: &str| s@)) == text@,
        0 <= i < r@.len() ==> !r@[i]@.contains('/'),
{
    lemma_pieces(text@);
    let pieces = r@.map_values(|s: &str| s@);
    if 0 <= i < r@.len() {
        assert(pieces[i] == r@[i]@);
    }
}

proof fn lemma_pieces(text: Seq<char>)
    ensures
        split_at_slashes(text).len() > 0,
        crate::scope_tree::slashed(split_at_slashes(text)) == text,
        forall|i: int|
            0 <= i < split_at_slashes(text).len() ==> !(
            #[trigger] split_at_slashes(text)[i]).contains('/'),
    decreases text.len(),
{
    reveal_with_fuel(crate::scope_tree::slashed, 2);
    let all = split_at_slashes(text);
    if text.len() == 0 {
        assert(all[0] =~= text);
        assert(crate::scope_tree::slashed(all) =~= text);
    } else {
        let front = split_at_slashes(text.drop_last());
        lemma_pieces(text.drop_last());
        if text.last() == '/' {
            assert(all.drop_last() =~= front);
            assert(crate::scope_tree::slashed(all) =~= text);
            assert forall|i: int| 0 <= i < all.len() implies !(#[trigger] all[i]).contains('/') by {
                if i < front.len() {
                    assert(all[i] == front[i]);
                }
            }
        } else {
            let longer = front.last().push(text.last());
            assert(all.drop_last() =~= front.drop_last());
            assert(all.last() == longer);
            assert(front[front.len() - 1] == front.last());
            if front.len() == 1 {
                assert(crate::scope_tree::slashed(front) == front[0]);
                assert(all[0] == longer);
            }
            assert(crate::scope_tree::slashed(all) =~= crate::scope_tree::slashed(front).push(
                text.last(),
            ));
            assert(crate::scope_tree::slashed(all) =~= text);
            assert forall|i: int| 0 <= i < all.len() implies !(#[trigger] all[i]).contains('/') by {
                if i < front.len() - 1 {
                    assert(all[i] == front[i]);
                } else {
                    assert(all[i] == longer);
                    if longer.contains('/') {
                        let k = choose|k: int| 0 <= k < longer.len() && longer[k] == '/';
                        if k < front.last().len() {
                            assert(front.last()[k] == '/');
                        }
                    }
                }
            }
        }
    }
}

} // verus!
