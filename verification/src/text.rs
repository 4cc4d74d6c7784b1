//! Text primitives: comparison, suffixes, trimming, splitting and number formatting,
//! each stated over the sequence of characters that a string holds.

use vstd::prelude::*;

verus! {

/// The code of `c` with an ASCII upper case letter mapped to its lower case one.
pub open spec fn ascii_lower(c: char) -> int {
    if 'A' <= c && c <= 'Z' {
        c as int + 32
    } else {
        c as int
    }
}

/// Two texts are equal when ASCII upper and lower case letters are not told apart.
pub open spec fn same_ignoring_ascii_case(a: Seq<char>, b: Seq<char>) -> bool {
    &&& a.len() == b.len()
    &&& forall|i: int| 0 <= i < a.len() ==> ascii_lower(#[trigger] a[i]) == ascii_lower(b[i])
}

/// The characters of a string, in order.
pub fn chars_of(s: &str) -> (v: Vec<char>)
    ensures
        v@ == s@,
{
    let mut v: Vec<char> = Vec::new();
    for c in it: s.chars()
        invariant
            it.seq() == s@,
            v@ == it.seq().take(it.index() as int),
    {
        v.push(c);
    }
    v
}

fn ascii_lower_code(c: char) -> (r: u32)
    ensures
        r == ascii_lower(c),
{
    if 'A' <= c && c <= 'Z' {
        c as u32 + 32
    } else {
        c as u32
    }
}

/// Whether two strings hold the same text.
pub fn same_text(a: &str, b: &str) -> (r: bool)
    ensures
        r == (a@ == b@),
{
    let x = chars_of(a);
    let y = chars_of(b);
    if x.len() != y.len() {
        return false;
    }
    for i in 0..x.len()
        invariant
            x@.len() == y@.len(),
            x@ == a@,
            y@ == b@,
            forall|j: int| 0 <= j < i ==> x@[j] == y@[j],
    {
        if x[i] != y[i] {
            return false;
        }
    }
    assert(x@ =~= y@);
    true
}

/// Whether two strings hold the same text up to the case of ASCII letters.
pub fn eq_ignore_ascii_case(a: &str, b: &str) -> (r: bool)
    ensures
        r == same_ignoring_ascii_case(a@, b@),
{
    let x = chars_of(a);
    let y = chars_of(b);
    if x.len() != y.len() {
        return false;
    }
    for i in 0..x.len()
        invariant
            x@.len() == y@.len(),
            x@ == a@,
            y@ == b@,
            forall|j: int| 0 <= j < i ==> ascii_lower(#[trigger] x@[j]) == ascii_lower(y@[j]),
    {
        if ascii_lower_code(x[i]) != ascii_lower_code(y[i]) {
            assert(ascii_lower(a@[i as int]) != ascii_lower(b@[i as int]));
            return false;
        }
    }
    true
}

/// `s` ends in `suffix`.
pub open spec fn has_suffix(s: Seq<char>, suffix: Seq<char>) -> bool {
    suffix.len() <= s.len() && s.skip(s.len() - suffix.len()) == suffix
}

/// Whether a string ends in another one.
pub fn ends_with(s: &str, suffix: &str) -> (r: bool)
    ensures
        r == has_suffix(s@, suffix@),
{
    let n: usize = s.unicode_len();
    let m: usize = suffix.unicode_len();
    if m > n {
        return false;
    }
    let tail = s.substring_char(n - m, n);
    assert(s@.skip(n - m) =~= tail@);
    same_text(tail, suffix)
}

/// A character with the Unicode property White_Space.
pub open spec fn white_space(c: char) -> bool {
    let n = c as int;
    ||| 0x9 <= n <= 0xd
    ||| n == 0x20
    ||| n == 0x85
    ||| n == 0xa0
    ||| n == 0x1680
    ||| 0x2000 <= n <= 0x200a
    ||| n == 0x2028
    ||| n == 0x2029
    ||| n == 0x202f
    ||| n == 0x205f
    ||| n == 0x3000
}

/// Whether a character is white space.
pub fn is_white_space(c: char) -> (r: bool)
    ensures
        r == white_space(c),
{
    let n: u32 = c as u32;
    (0x9 <= n && n <= 0xd) || n == 0x20 || n == 0x85 || n == 0xa0 || n == 0x1680 || (0x2000 <= n
        && n <= 0x200a) || n == 0x2028 || n == 0x2029 || n == 0x202f || n == 0x205f || n == 0x3000
}

/// `s` without the white space that it starts with.
pub open spec fn trimmed_start(s: Seq<char>) -> Seq<char>
    decreases s.len(),
{
    if s.len() > 0 && white_space(s.first()) {
        trimmed_start(s.drop_first())
    } else {
        s
    }
}

/// `s` without the white space that it ends in.
pub open spec fn trimmed_end(s: Seq<char>) -> Seq<char>
    decreases s.len(),
{
    if s.len() > 0 && white_space(s.last()) {
        trimmed_end(s.drop_last())
    } else {
        s
    }
}

/// `s` without the white space at its two ends.
pub open spec fn trimmed(s: Seq<char>) -> Seq<char> {
    trimmed_end(trimmed_start(s))
}

/// The string without the white space at its two ends.
pub fn trim(s: &str) -> (r: String)
    ensures
        r@ == trimmed(s@),
{
    let v = chars_of(s);
    let n: usize = v.len();
    let mut from: usize = 0;
    assert(s@.skip(0) =~= s@);
    while from < n && is_white_space(v[from])
        invariant
            from <= n,
            n == v@.len(),
            v@ == s@,
            trimmed_start(s@) == trimmed_start(s@.skip(from as int)),
        decreases n - from,
    {
        assert(s@.skip(from as int).drop_first() =~= s@.skip(from + 1));
        from = from + 1;
    }
    let ghost rest = s@.skip(from as int);
    assert(trimmed_start(s@) == rest);
    let mut to: usize = n;
    assert(s@.subrange(from as int, n as int) =~= rest);
    while from < to && is_white_space(v[to - 1])
        invariant
            from <= to <= n,
            n == v@.len(),
            v@ == s@,
            trimmed_end(rest) == trimmed_end(s@.subrange(from as int, to as int)),
        decreases to,
    {
        assert(s@.subrange(from as int, to as int).drop_last() =~= s@.subrange(
            from as int,
            to - 1,
        ));
        to = to - 1;
    }
    s.substring_char(from, to).to_owned()
}

/// The texts that a list of strings holds.
pub open spec fn texts(list: Seq<String>) -> Seq<Seq<char>> {
    list.map_values(|s: String| s@)
}

/// The pieces of `s` between the occurrences of `sep`: one more than there are of those.
pub open spec fn split_at_each(s: Seq<char>, sep: char) -> Seq<Seq<char>>
    decreases s.len(),
{
    if s.len() == 0 {
        seq![Seq::<char>::empty()]
    } else {
        let pieces = split_at_each(s.drop_last(), sep);
        if s.last() == sep {
            pieces.push(Seq::<char>::empty())
        } else {
            pieces.drop_last().push(pieces.last().push(s.last()))
        }
    }
}

/// The pieces with their white space trimmed, without those that are then empty.
pub open spec fn trimmed_non_empty(pieces: Seq<Seq<char>>) -> Seq<Seq<char>>
    decreases pieces.len(),
{
    if pieces.len() == 0 {
        Seq::empty()
    } else {
        let kept = trimmed_non_empty(pieces.drop_last());
        let item = trimmed(pieces.last());
        if item.len() > 0 {
            kept.push(item)
        } else {
            kept
        }
    }
}

/// The items that a comma separated text lists.
pub open spec fn comma_list(s: Seq<char>) -> Seq<Seq<char>> {
    trimmed_non_empty(split_at_each(s, ','))
}

fn push_item(items: &mut Vec<String>, piece: &str, Ghost(done): Ghost<Seq<Seq<char>>>)
    requires
        texts(old(items)@) == trimmed_non_empty(done),
    ensures
        texts(final(items)@) == trimmed_non_empty(done.push(piece@)),
{
    let item = trim(piece);
    assert(done.push(piece@).drop_last() =~= done);
    if !item.as_str().is_empty() {
        let ghost before = items@;
        let ghost view = item@;
        items.push(item);
        assert(texts(items@) =~= texts(before).push(view));
    }
}

/// The items of a comma separated text: each piece is trimmed, and empty ones are left out.
pub fn split_comma_list(s: &str) -> (items: Vec<String>)
    ensures
        texts(items@) == comma_list(s@),
{
    let v = chars_of(s);
    let n: usize = v.len();
    let mut items: Vec<String> = Vec::new();
    let mut start: usize = 0;
    let ghost mut done: Seq<Seq<char>> = Seq::empty();
    assert(texts(items@) =~= trimmed_non_empty(done));
    assert(s@.subrange(0, 0) =~= Seq::<char>::empty());
    assert(split_at_each(s@.take(0), ',') =~= done.push(s@.subrange(0, 0)));
    for i in 0..n
        invariant
            n == v@.len(),
            v@ == s@,
            start <= i,
            texts(items@) == trimmed_non_empty(done),
            split_at_each(s@.take(i as int), ',') == done.push(
                s@.subrange(start as int, i as int),
            ),
    {
        let ghost piece = s@.subrange(start as int, i as int);
        assert(s@.take(i + 1).drop_last() =~= s@.take(i as int));
        assert(done.push(piece).drop_last() =~= done);
        if v[i] == ',' {
            push_item(&mut items, s.substring_char(start, i), Ghost(done));
            proof {
                done = done.push(piece);
            }
            start = i + 1;
            assert(s@.subrange(start as int, i + 1) =~= Seq::<char>::empty());
        } else {
            assert(s@.subrange(start as int, i + 1) =~= piece.push(s@[i as int]));
        }
    }
    assert(s@.take(n as int) =~= s@);
    push_item(&mut items, s.substring_char(start, n), Ghost(done));
    items
}

/// The digit that stands for `d` in a number.
pub open spec fn digit(d: nat) -> Seq<char> {
    "0123456789ABCDEF"@.subrange(d as int, d as int + 1)
}

/// `n` written in decimal, without leading zeros.
pub open spec fn decimal(n: nat) -> Seq<char>
    decreases n,
{
    if n < 10 {
        digit(n)
    } else {
        decimal(n / 10) + digit(n % 10)
    }
}

/// `n` written in upper case hexadecimal, without leading zeros.
pub open spec fn hexadecimal(n: nat) -> Seq<char>
    decreases n,
{
    if n < 16 {
        digit(n)
    } else {
        hexadecimal(n / 16) + digit(n % 16)
    }
}

/// `n` written in upper case hexadecimal, with at least two digits.
pub open spec fn hexadecimal_2(n: nat) -> Seq<char> {
    if n < 16 {
        digit(0) + digit(n)
    } else {
        hexadecimal(n)
    }
}

fn digit_text(d: usize) -> (r: &'static str)
    requires
        d < 16,
    ensures
        r@ == digit(d as nat),
{
    let digits = "0123456789ABCDEF";
    proof {
        reveal_strlit("0123456789ABCDEF");
    }
    digits.substring_char(d, d + 1)
}

/// A number in decimal.
pub fn decimal_text(n: u64) -> (r: String)
    ensures
        r@ == decimal(n as nat),
    decreases n,
{
    if n < 10 {
        digit_text(n as usize).to_owned()
    } else {
        let mut r = decimal_text(n / 10);
        r.append(digit_text((n % 10) as usize));
        r
    }
}

fn hexadecimal_text(n: u16) -> (r: String)
    ensures
        r@ == hexadecimal(n as nat),
    decreases n,
{
    if n < 16 {
        digit_text(n as usize).to_owned()
    } else {
        let mut r = hexadecimal_text(n / 16);
        r.append(digit_text((n % 16) as usize));
        r
    }
}

/// A number in upper case hexadecimal, with at least two digits.
pub fn hexadecimal_2_text(n: u16) -> (r: String)
    ensures
        r@ == hexadecimal_2(n as nat),
{
    if n < 16 {
        let mut r = digit_text(0).to_owned();
        r.append(digit_text(n as usize));
        r
    } else {
        hexadecimal_text(n)
    }
}

/// The debug form of a text: the text between quotation marks, with some of its characters
/// escaped.
pub uninterp spec fn debug_form(text: Seq<char>) -> Seq<char>;

/// The `Debug` of [`str`], as the standard library writes it. What is claimed is that it
/// depends on the text alone; which characters it escapes, and how, is left unsaid.
#[verifier::external_body]
pub(crate) fn quoted(text: &str) -> (r: String)
    ensures
        r@ == debug_form(text@),
{
    format!("{:?}", text)
}

/// Two texts, one after the other.
pub fn join(a: &str, b: &str) -> (r: String)
    ensures
        r@ == a@ + b@,
{
    let mut r = a.to_owned();
    r.append(b);
    r
}

/// Three texts, one after the other.
pub fn join3(a: &str, b: &str, c: &str) -> (r: String)
    ensures
        r@ == a@ + b@ + c@,
{
    let mut r = join(a, b);
    r.append(c);
    r
}

/// To be equal up to the case of ASCII letters is an equivalence: each text is equal to
/// itself, and two texts that are equal to one another are equal to the same others, from
/// either side.
pub proof fn law_same_ignoring_case_is_an_equivalence(a: Seq<char>, b: Seq<char>, c: Seq<char>)
    ensures
        same_ignoring_ascii_case(a, a),
        same_ignoring_ascii_case(a, b) == same_ignoring_ascii_case(b, a),
        same_ignoring_ascii_case(a, b) ==> same_ignoring_ascii_case(a, c)
            == same_ignoring_ascii_case(b, c),
        same_ignoring_ascii_case(a, b) ==> same_ignoring_ascii_case(c, a)
            == same_ignoring_ascii_case(c, b),
{
    lemma_same_symmetric(a, b);
    lemma_same_symmetric(b, a);
    if same_ignoring_ascii_case(a, b) {
        lemma_same_transitive(a, b, c);
        lemma_same_transitive(b, a, c);
        lemma_same_transitive(c, a, b);
        lemma_same_transitive(c, b, a);
    }
}

proof fn lemma_same_symmetric(a: Seq<char>, b: Seq<char>)
    ensures
        same_ignoring_ascii_case(a, b) ==> same_ignoring_ascii_case(b, a),
{
    if same_ignoring_ascii_case(a, b) {
        assert forall|i: int| 0 <= i < b.len() implies ascii_lower(#[trigger] b[i]) == ascii_lower(
            a[i],
        ) by {
            assert(ascii_lower(a[i]) == ascii_lower(b[i]));
        }
    }
}

proof fn lemma_same_transitive(a: Seq<char>, b: Seq<char>, c: Seq<char>)
    ensures
        same_ignoring_ascii_case(a, b) && same_ignoring_ascii_case(b, c)
            ==> same_ignoring_ascii_case(a, c),
{
    if same_ignoring_ascii_case(a, b) && same_ignoring_ascii_case(b, c) {
        assert forall|i: int| 0 <= i < a.len() implies ascii_lower(#[trigger] a[i]) == ascii_lower(
            c[i],
        ) by {
            assert(ascii_lower(b[i]) == ascii_lower(c[i]));
        }
    }
}

proof fn lemma_trimmed_start(s: Seq<char>)
    ensures
        trimmed_start(s).len() <= s.len(),
        trimmed_start(s) == s.skip(s.len() - trimmed_start(s).len()),
        trimmed_start(s).len() > 0 ==> !white_space(trimmed_start(s).first()),
    decreases s.len(),
{
    if s.len() > 0 && white_space(s.first()) {
        lemma_trimmed_start(s.drop_first());
        assert(s.drop_first().skip(s.drop_first().len() - trimmed_start(s).len()) =~= s.skip(
            s.len() - trimmed_start(s).len(),
        ));
    } else {
        assert(s.skip(0) =~= s);
    }
}

proof fn lemma_trimmed_end(s: Seq<char>)
    ensures
        trimmed_end(s).len() <= s.len(),
        trimmed_end(s) == s.take(trimmed_end(s).len() as int),
        trimmed_end(s).len() > 0 ==> !white_space(trimmed_end(s).last()),
    decreases s.len(),
{
    if s.len() > 0 && white_space(s.last()) {
        lemma_trimmed_end(s.drop_last());
        assert(s.drop_last().take(trimmed_end(s).len() as int) =~= s.take(
            trimmed_end(s).len() as int,
        ));
    } else {
        assert(s.take(s.len() as int) =~= s);
    }
}

/// Trimming leaves a part of the text that has no white space at its ends, and to trim
/// once more changes nothing.
pub proof fn law_trim(s: Seq<char>)
    ensures
        exists|from: int, to: int|
            0 <= from <= to <= s.len() && trimmed(s) == #[trigger] s.subrange(from, to),
        trimmed(s).len() > 0 ==> !white_space(trimmed(s).first()) && !white_space(
            trimmed(s).last(),
        ),
        trimmed(trimmed(s)) == trimmed(s),
{
    let a = trimmed_start(s);
    let t = trimmed_end(a);
    lemma_trimmed_start(s);
    lemma_trimmed_end(a);
    let from = s.len() - a.len();
    assert(s.subrange(from, from + t.len()) =~= t);
    if t.len() > 0 {
        assert(t.first() == a.first());
    }
}

proof fn lemma_split_pieces(s: Seq<char>, sep: char)
    ensures
        split_at_each(s, sep).len() > 0,
        forall|i: int|
            0 <= i < split_at_each(s, sep).len() ==> !(#[trigger] split_at_each(
                s,
                sep,
            )[i]).contains(sep),
    decreases s.len(),
{
    if s.len() > 0 {
        lemma_split_pieces(s.drop_last(), sep);
        let pieces = split_at_each(s.drop_last(), sep);
        if s.last() != sep {
            let last = pieces.last();
            assert(!last.contains(sep));
            assert forall|j: int| 0 <= j < last.push(s.last()).len() implies last.push(
                s.last(),
            )[j] != sep by {
                if j < last.len() {
                    assert(last.contains(last[j]));
                }
            }
        }
    }
}

/// What an item of a list looks like: it is not empty, has no white space at its ends, and no comma in it.
pub open spec fn listed(item: Seq<char>) -> bool {
    &&& item.len() > 0
    &&& !white_space(item.first())
    &&& !white_space(item.last())
    &&& !item.contains(',')
}

proof fn lemma_kept_items(pieces: Seq<Seq<char>>)
    requires
        forall|i: int| 0 <= i < pieces.len() ==> !(#[trigger] pieces[i]).contains(','),
    ensures
        forall|i: int|
            0 <= i < trimmed_non_empty(pieces).len() ==> listed(
                #[trigger] trimmed_non_empty(pieces)[i],
            ),
    decreases pieces.len(),
{
    if pieces.len() > 0 {
        lemma_kept_items(pieces.drop_last());
        let piece = pieces.last();
        let item = trimmed(piece);
        law_trim(piece);
        let (from, to) = choose|from: int, to: int|
            0 <= from <= to <= piece.len() && item == #[trigger] piece.subrange(from, to);
        assert forall|j: int| 0 <= j < item.len() implies item[j] != ',' by {
            assert(item[j] == piece[from + j]);
            assert(piece.contains(piece[from + j]));
            assert(!pieces[pieces.len() - 1].contains(','));
        }
        assert(item.len() > 0 ==> listed(item));
        let kept = trimmed_non_empty(pieces.drop_last());
        assert(trimmed_non_empty(pieces) == (if item.len() > 0 {
            kept.push(item)
        } else {
            kept
        }));
        assert forall|i: int| 0 <= i < trimmed_non_empty(pieces).len() implies listed(
            #[trigger] trimmed_non_empty(pieces)[i],
        ) by {
            if i < kept.len() {
                assert(listed(kept[i]));
            }
        }
    }
}

proof fn lemma_split_concat(a: Seq<char>, b: Seq<char>, sep: char)
    ensures
        split_at_each(a.push(sep) + b, sep) == split_at_each(a, sep) + split_at_each(b, sep),
    decreases b.len(),
{
    let whole = a.push(sep) + b;
    if b.len() == 0 {
        assert(whole =~= a.push(sep));
        assert(whole.drop_last() =~= a);
        assert(split_at_each(whole, sep) =~= split_at_each(a, sep) + split_at_each(b, sep));
    } else {
        lemma_split_concat(a, b.drop_last(), sep);
        lemma_split_pieces(b.drop_last(), sep);
        assert(whole.drop_last() =~= a.push(sep) + b.drop_last());
        assert(whole.last() == b.last());
        let p = split_at_each(a, sep);
        let q = split_at_each(b.drop_last(), sep);
        assert((p + q).last() == q.last());
        assert((p + q).drop_last() =~= p + q.drop_last());
        assert(split_at_each(whole, sep) =~= p + split_at_each(b, sep));
    }
}

proof fn lemma_kept_concat(a: Seq<Seq<char>>, b: Seq<Seq<char>>)
    ensures
        trimmed_non_empty(a + b) == trimmed_non_empty(a) + trimmed_non_empty(b),
    decreases b.len(),
{
    if b.len() == 0 {
        assert(a + b =~= a);
        assert(trimmed_non_empty(a) =~= trimmed_non_empty(a) + trimmed_non_empty(b));
    } else {
        lemma_kept_concat(a, b.drop_last());
        assert((a + b).drop_last() =~= a + b.drop_last());
        assert((a + b).last() == b.last());
        assert(trimmed_non_empty(a + b) =~= trimmed_non_empty(a) + trimmed_non_empty(b));
    }
}

/// Two lists with a comma between them list the items of the first one and then those of
/// the second one.
pub proof fn law_comma_list_concat(a: Seq<char>, b: Seq<char>)
    ensures
        comma_list(a.push(',') + b) == comma_list(a) + comma_list(b),
{
    lemma_split_concat(a, b, ',');
    lemma_kept_concat(split_at_each(a, ','), split_at_each(b, ','));
}

proof fn lemma_split_one(s: Seq<char>, sep: char)
    requires
        !s.contains(sep),
    ensures
        split_at_each(s, sep) == seq![s],
    decreases s.len(),
{
    if s.len() == 0 {
        assert(s =~= Seq::<char>::empty());
    } else {
        assert forall|j: int| 0 <= j < s.drop_last().len() implies s.drop_last()[j] != sep by {
            assert(s.contains(s[j]));
        }
        lemma_split_one(s.drop_last(), sep);
        assert(s.contains(s[s.len() - 1]));
        assert(s.drop_last().push(s.last()) =~= s);
        let pieces = split_at_each(s.drop_last(), sep);
        assert(pieces.last() == s.drop_last());
        assert(pieces.drop_last().push(pieces.last().push(s.last())) =~= seq![s]);
    }
}

/// A text without a comma lists itself without the white space at its ends, or nothing if
/// there is nothing else in it.
pub proof fn law_comma_list_of_one(s: Seq<char>)
    requires
        !s.contains(','),
    ensures
        comma_list(s) == (if trimmed(s).len() > 0 {
            seq![trimmed(s)]
        } else {
            Seq::<Seq<char>>::empty()
        }),
{
    lemma_split_one(s, ',');
    assert(seq![s].drop_last() =~= Seq::<Seq<char>>::empty());
    assert(trimmed_non_empty(seq![s].drop_last()) =~= Seq::<Seq<char>>::empty());
    assert(seq![s].last() == s);
}

/// No item of a comma separated list is empty, starts or ends with white space, or has a
/// comma in it.
pub proof fn law_comma_list_items(s: Seq<char>, i: int)
    requires
        0 <= i < comma_list(s).len(),
    ensures
        listed(comma_list(s)[i]),
{
    lemma_split_pieces(s, ',');
    lemma_kept_items(split_at_each(s, ','));
}

/// Two characters differ at most in the case of an ASCII letter: they are the same, or one of
/// them is a letter from `A` to `Z` and the other one the small letter to it.
pub open spec fn same_letter(a: char, b: char) -> bool {
    ||| a == b
    ||| 'A' <= a <= 'Z' && b as int - a as int == 'a' as int - 'A' as int
    ||| 'A' <= b <= 'Z' && a as int - b as int == 'a' as int - 'A' as int
}

/// Two texts are equal up to the case of ASCII letters exactly if they have as many
/// characters, and the characters at each place differ at most in that case.
pub proof fn law_case_of_letters(a: Seq<char>, b: Seq<char>)
    ensures
        same_ignoring_ascii_case(a, b) <==> a.len() == b.len() && forall|i: int|
            0 <= i < a.len() ==> same_letter(#[trigger] a[i], b[i]),
{
    if same_ignoring_ascii_case(a, b) {
        assert forall|i: int| 0 <= i < a.len() implies same_letter(#[trigger] a[i], b[i]) by {
            assert(ascii_lower(a[i]) == ascii_lower(b[i]));
        }
    }
    if a.len() == b.len() && forall|i: int|
        0 <= i < a.len() ==> same_letter(#[trigger] a[i], b[i]) {
        assert forall|i: int| 0 <= i < a.len() implies ascii_lower(#[trigger] a[i]) == ascii_lower(
            b[i],
        ) by {
            assert(same_letter(a[i], b[i]));
        }
    }
}

/// A text ends in another one exactly if it is some text followed by that one.
pub proof fn law_suffix(s: Seq<char>, suffix: Seq<char>)
    ensures
        has_suffix(s, suffix) <==> exists|before: Seq<char>| s == #[trigger] (before + suffix),
{
    if has_suffix(s, suffix) {
        let before = s.take(s.len() - suffix.len());
        assert(s =~= before + suffix);
    }
    if exists|before: Seq<char>| s == #[trigger] (before + suffix) {
        let before = choose|before: Seq<char>| s == #[trigger] (before + suffix);
        assert(s.skip(s.len() - suffix.len()) =~= suffix);
    }
}

/// The characters that are white space: the tab and the line breaks of ASCII, the space, the
/// next line, and the spaces and separators of Unicode.
pub proof fn law_white_space(c: char)
    ensures
        white_space(c) <==> c == '\t' || c == '\n' || c == '\u{b}' || c == '\u{c}' || c == '\r'
            || c == ' ' || c == '\u{85}' || c == '\u{a0}' || c == '\u{1680}' || ('\u{2000}' <= c
            <= '\u{200a}') || c == '\u{2028}' || c == '\u{2029}' || c == '\u{202f}' || c
            == '\u{205f}' || c == '\u{3000}',
{
}

proof fn lemma_trimmed_start_drops(s: Seq<char>)
    ensures
        trimmed_start(s).len() <= s.len(),
        forall|j: int|
            0 <= j < s.len() - trimmed_start(s).len() ==> white_space(#[trigger] s[j]),
    decreases s.len(),
{
    if s.len() > 0 && white_space(s.first()) {
        lemma_trimmed_start_drops(s.drop_first());
        assert forall|j: int| 0 <= j < s.len() - trimmed_start(s).len() implies white_space(
            #[trigger] s[j],
        ) by {
            if j > 0 {
                assert(s[j] == s.drop_first()[j - 1]);
            }
        }
    }
}

proof fn lemma_trimmed_end_drops(s: Seq<char>)
    ensures
        trimmed_end(s).len() <= s.len(),
        forall|j: int| trimmed_end(s).len() <= j < s.len() ==> white_space(#[trigger] s[j]),
    decreases s.len(),
{
    if s.len() > 0 && white_space(s.last()) {
        lemma_trimmed_end_drops(s.drop_last());
        assert forall|j: int| trimmed_end(s).len() <= j < s.len() implies white_space(
            #[trigger] s[j],
        ) by {
            if j < s.len() - 1 {
                assert(s[j] == s.drop_last()[j]);
            }
        }
    }
}

/// Trimming takes away white space and nothing else: a text is white space, then what is left
/// of it, then white space, and what is left neither starts nor ends with any.
pub proof fn law_trim_takes_white_space(s: Seq<char>) -> (r: (Seq<char>, Seq<char>))
    ensures
        s == r.0 + trimmed(s) + r.1,
        forall|i: int| 0 <= i < r.0.len() ==> white_space(#[trigger] r.0[i]),
        forall|i: int| 0 <= i < r.1.len() ==> white_space(#[trigger] r.1[i]),
        trimmed(s).len() > 0 ==> !white_space(trimmed(s)[0]) && !white_space(
            trimmed(s)[trimmed(s).len() - 1],
        ),
{
    let a = trimmed_start(s);
    let t = trimmed_end(a);
    lemma_trimmed_start(s);
    lemma_trimmed_end(a);
    lemma_trimmed_start_drops(s);
    lemma_trimmed_end_drops(a);
    let from = s.len() - a.len();
    let before = s.take(from);
    let after = a.skip(t.len() as int);
    assert(s =~= before + t + after);
    if t.len() > 0 {
        assert(t[0] == a.first());
    }
    (before, after)
}

/// A digit is one character: those below ten are `0` to `9`, the others `A` to `F`.
pub proof fn law_digit(d: nat)
    requires
        d < 16,
    ensures
        digit(d).len() == 1,
        d < 10 ==> digit(d)[0] as int == '0' as int + d,
        d >= 10 ==> digit(d)[0] as int == 'A' as int + d - 10,
{
    reveal_strlit("0123456789ABCDEF");
}

/// A number in decimal: one digit below ten, and to put a digit behind a number multiplies it
/// by ten and adds the digit.
pub proof fn law_decimal(n: nat, d: nat)
    requires
        d < 10,
    ensures
        decimal(d).len() == 1,
        decimal(d)[0] as int == '0' as int + d,
        n > 0 ==> decimal(10 * n + d) == decimal(n) + decimal(d),
{
    law_digit(d);
    assert((10 * n + d) / 10 == n && (10 * n + d) % 10 == d);
}

/// The number that a text of hexadecimal digits stands for.
pub open spec fn read_hexadecimal(s: Seq<char>) -> int
    decreases s.len(),
{
    if s.len() == 0 {
        0
    } else {
        let c = s.last() as int;
        16 * read_hexadecimal(s.drop_last()) + (if c <= '9' as int {
            c - '0' as int
        } else {
            c - 'A' as int + 10
        })
    }
}

/// The character is a digit of an upper case hexadecimal number.
pub open spec fn is_hexadecimal(c: char) -> bool {
    '0' <= c <= '9' || 'A' <= c <= 'F'
}

proof fn lemma_hexadecimal(n: nat)
    ensures
        read_hexadecimal(hexadecimal(n)) == n,
        hexadecimal(n).len() >= 1,
        n >= 16 ==> hexadecimal(n).len() >= 2,
        n > 0 ==> hexadecimal(n)[0] != '0',
        forall|i: int| 0 <= i < hexadecimal(n).len() ==> is_hexadecimal(#[trigger] hexadecimal(n)[i]),
    decreases n,
{
    let empty = Seq::<char>::empty();
    if n < 16 {
        law_digit(n);
        assert(digit(n).drop_last() =~= empty);
        assert(read_hexadecimal(empty) == 0);
    } else {
        lemma_hexadecimal(n / 16);
        law_digit(n % 16);
        let s = hexadecimal(n);
        assert(s.drop_last() =~= hexadecimal(n / 16));
        assert(s.last() == digit(n % 16)[0]);
        assert(s[0] == hexadecimal(n / 16)[0]);
    }
}

/// A number in hexadecimal can be read back: it has digits and upper case letters only, at
/// least two of them, and more than two only as far as the number needs them.
pub proof fn law_hexadecimal(n: nat)
    ensures
        read_hexadecimal(hexadecimal_2(n)) == n,
        hexadecimal_2(n).len() >= 2,
        hexadecimal_2(n).len() > 2 ==> hexadecimal_2(n)[0] != '0',
        forall|i: int|
            0 <= i < hexadecimal_2(n).len() ==> is_hexadecimal(#[trigger] hexadecimal_2(n)[i]),
{
    lemma_hexadecimal(n);
    if n < 16 {
        law_digit(0);
        law_digit(n);
        let s = hexadecimal_2(n);
        assert(s.drop_last() =~= digit(0));
        assert(s.last() == digit(n)[0]);
        assert(digit(0).drop_last() =~= Seq::<char>::empty());
        lemma_hexadecimal(0);
    }
}

/// The texts of a list are those of its strings, one for one and in their order.
pub proof fn law_texts(list: Seq<String>)
    ensures
        texts(list).len() == list.len(),
        forall|i: int| 0 <= i < list.len() ==> #[trigger] texts(list)[i] == list[i]@,
{
}

} // verus!
