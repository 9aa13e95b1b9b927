//! Text helpers: decimal numbers, searching, and filling in message templates.

use vstd::prelude::*;
use vstd::string::*;

verus! {

/// The digit character of `d`, for `d` below ten.
pub open spec fn digit_char(d: nat) -> char {
    (48 + d) as char
}

/// How a natural number is written in decimal, without leading zeros.
pub open spec fn decimal(n: nat) -> Seq<char>
    decreases n,
{
    if n < 10 {
        seq![digit_char(n)]
    } else {
        decimal(n / 10).push(digit_char(n % 10))
    }
}

/// How an integer is written in decimal, with a minus sign where it is negative.
pub open spec fn signed_decimal(i: int) -> Seq<char> {
    if i < 0 {
        seq!['-'] + decimal((-i) as nat)
    } else {
        decimal(i as nat)
    }
}

/// The number that a row of digits stands for.
pub open spec fn number_of(s: Seq<char>) -> nat
    decreases s.len(),
{
    if s.len() == 0 {
        0
    } else {
        10 * number_of(s.drop_last()) + ((s.last() as int - 48) as nat)
    }
}

/// A number can be read back from its decimal text, so no two numbers share one.
pub proof fn law_decimal_reads_back(n: nat)
    ensures
        number_of(decimal(n)) == n,
        decimal(n).len() > 0,
        forall|i: int| 0 <= i < decimal(n).len() ==> '0' <= #[trigger] decimal(n)[i] <= '9',
    decreases n,
{
    if n < 10 {
        assert(decimal(n).drop_last() =~= Seq::<char>::empty());
        assert(number_of(decimal(n).drop_last()) == 0);
    } else {
        law_decimal_reads_back(n / 10);
        assert(decimal(n).drop_last() =~= decimal(n / 10));
    }
}

fn digit_text(d: u64) -> (r: &'static str)
    requires
        d < 10,
    ensures
        r@ == seq![digit_char(d as nat)],
{
    proof {
        reveal_strlit("0");
        reveal_strlit("1");
        reveal_strlit("2");
        reveal_strlit("3");
        reveal_strlit("4");
        reveal_strlit("5");
        reveal_strlit("6");
        reveal_strlit("7");
        reveal_strlit("8");
        reveal_strlit("9");
    }
    let r = match d {
        0 => "0",
        1 => "1",
        2 => "2",
        3 => "3",
        4 => "4",
        5 => "5",
        6 => "6",
        7 => "7",
        8 => "8",
        _ => "9",
    };
    assert(r@ =~= seq![digit_char(d as nat)]);
    r
}

/// Appends `n` in decimal.
pub fn append_decimal(out: &mut String, n: u64)
    ensures
        final(out)@ == old(out)@ + decimal(n as nat),
    decreases n,
{
    if n >= 10 {
        append_decimal(out, n / 10);
    }
    out.append(digit_text(n % 10));
    assert(out@ =~= old(out)@ + decimal(n as nat));
}

/// Appends `i` in decimal, with a minus sign where it is negative.
pub fn append_signed(out: &mut String, i: i32)
    ensures
        final(out)@ == old(out)@ + signed_decimal(i as int),
{
    if i < 0 {
        proof {
            reveal_strlit("-");
        }
        out.append("-");
        append_decimal(out, (-(i as i64)) as u64);
        assert(out@ =~= old(out)@ + signed_decimal(i as int));
    } else {
        append_decimal(out, i as u64);
    }
}

/// The characters of a text.
pub fn chars_of(s: &str) -> (r: Vec<char>)
    ensures
        r@ == s@,
{
    let mut r: Vec<char> = Vec::new();
    for c in it: s.chars()
        invariant
            it.seq() == s@,
            r@ == s@.take(it.index()),
    {
        r.push(c);
        assert(s@.take(it.index() as int + 1) =~= s@.take(it.index() as int).push(c));
    }
    assert(r@ =~= s@);
    r
}

/// Whether `needle` occurs in `hay` from position `at` on.
pub open spec fn occurs_at(hay: Seq<char>, needle: Seq<char>, at: int) -> bool {
    0 <= at && at + needle.len() <= hay.len() && hay.subrange(at, at + needle.len()) == needle
}

/// Whether `needle` occurs anywhere in `hay`.
pub open spec fn contains(hay: Seq<char>, needle: Seq<char>) -> bool {
    exists|at: int| #[trigger] occurs_at(hay, needle, at)
}

fn occurs_here(hay: &Vec<char>, needle: &Vec<char>, at: usize) -> (r: bool)
    requires
        at + needle@.len() <= hay@.len(),
    ensures
        r == occurs_at(hay@, needle@, at as int),
{
    let end: usize = hay.len();
    let mut i: usize = 0;
    while i < needle.len()
        invariant
            i <= needle@.len(),
            end == hay@.len(),
            at + needle@.len() <= end,
            forall|k: int| 0 <= k < i ==> hay@[at + k] == needle@[k],
        decreases needle@.len() - i,
    {
        if hay[at + i] != needle[i] {
            assert(hay@.subrange(at as int, at + needle@.len())[i as int] != needle@[i as int]);
            return false;
        }
        i += 1;
    }
    assert(hay@.subrange(at as int, at + needle@.len()) =~= needle@);
    true
}

/// Whether `needle` occurs anywhere in `hay`.
pub fn contains_text(hay: &str, needle: &str) -> (r: bool)
    ensures
        r == contains(hay@, needle@),
{
    let hs = chars_of(hay);
    let ns = chars_of(needle);
    if ns.len() > hs.len() {
        return false;
    }
    let last: usize = hs.len() - ns.len();
    let mut at: usize = 0;
    loop
        invariant
            at <= last,
            hs@ == hay@,
            ns@ == needle@,
            last + ns@.len() == hs@.len(),
            forall|k: int| 0 <= k < at ==> !#[trigger] occurs_at(hay@, needle@, k),
        decreases last - at,
    {
        if occurs_here(&hs, &ns, at) {
            return true;
        }
        if at == last {
            return false;
        }
        at += 1;
    }
}

/// The lower case of an ASCII letter; any other character unchanged.
pub open spec fn ascii_lower(c: char) -> char {
    if 'A' <= c <= 'Z' {
        (c as int + 32) as char
    } else {
        c
    }
}

/// Whether two texts are equal but for the case of ASCII letters.
pub open spec fn same_but_for_case(a: Seq<char>, b: Seq<char>) -> bool {
    a.map_values(|c: char| ascii_lower(c)) == b.map_values(|c: char| ascii_lower(c))
}

fn lower_of(c: char) -> (r: char)
    ensures
        r == ascii_lower(c),
{
    if 'A' <= c && c <= 'Z' {
        ((c as u8) + 32) as char
    } else {
        c
    }
}

/// Whether two texts are equal but for the case of ASCII letters.
pub fn equal_but_for_case(a: &str, b: &str) -> (r: bool)
    ensures
        r == same_but_for_case(a@, b@),
{
    let xs = chars_of(a);
    let ys = chars_of(b);
    let ghost lower = |c: char| ascii_lower(c);
    if xs.len() != ys.len() {
        assert(a@.map_values(lower).len() != b@.map_values(lower).len());
        return false;
    }
    let mut i: usize = 0;
    while i < xs.len()
        invariant
            i <= xs@.len(),
            xs@ == a@,
            ys@ == b@,
            xs@.len() == ys@.len(),
            forall|k: int| 0 <= k < i ==> ascii_lower(a@[k]) == ascii_lower(b@[k]),
        decreases xs@.len() - i,
    {
        if lower_of(xs[i]) != lower_of(ys[i]) {
            proof {
                let lower = |c: char| ascii_lower(c);
                assert(a@.map_values(lower)[i as int] != b@.map_values(lower)[i as int]);
            }
            return false;
        }
        i += 1;
    }
    assert(a@.map_values(lower) =~= b@.map_values(lower));
    true
}

/// A template without its marks `{}` for a value.
pub open spec fn without_placeholders(template: Seq<char>) -> Seq<char>
    decreases template.len(),
{
    if template.len() == 0 {
        Seq::empty()
    } else if template.len() >= 2 && template[0] == '{' && template[1] == '}' {
        without_placeholders(template.skip(2))
    } else {
        seq![template[0]] + without_placeholders(template.skip(1))
    }
}

/// A template without its marks `{}` for a value.
pub fn drop_placeholders(template: &str) -> (r: String)
    ensures
        r@ == without_placeholders(template@),
{
    let chars = chars_of(template);
    let mut r = String::new();
    let mut i: usize = 0;
    assert(template@.skip(0) =~= template@);
    while i < chars.len()
        invariant
            i <= chars@.len(),
            chars@ == template@,
            r@ + without_placeholders(template@.skip(i as int)) == without_placeholders(template@),
        decreases chars@.len() - i,
    {
        let ghost rest = template@.skip(i as int);
        let ghost before = r@;
        if chars.len() - i >= 2 && chars[i] == '{' && chars[i + 1] == '}' {
            assert(rest.skip(2) =~= template@.skip(i + 2));
            i += 2;
        } else {
            r.append(template.substring_char(i, i + 1));
            assert(rest.skip(1) =~= template@.skip(i + 1));
            assert(r@ + without_placeholders(template@.skip(i + 1)) =~= before
                + without_placeholders(rest));
            i += 1;
        }
    }
    assert(r@ =~= without_placeholders(template@));
    r
}

/// How a list of numbers is written after its opening bracket: the numbers from `from` on,
/// with a comma and a space before each but the first.
pub open spec fn list_tail(numbers: Seq<u32>, from: int) -> Seq<char>
    decreases numbers.len() - from,
{
    if from < 0 || from >= numbers.len() {
        Seq::empty()
    } else {
        (if from == 0 {
            Seq::empty()
        } else {
            ", "@
        }) + decimal(numbers[from] as nat) + list_tail(numbers, from + 1)
    }
}

/// How a list of numbers is written: in square brackets, with commas between them.
pub open spec fn number_list(numbers: Seq<u32>) -> Seq<char> {
    "["@ + list_tail(numbers, 0) + "]"@
}

/// Appends a list of numbers.
pub fn append_number_list(out: &mut String, numbers: &Vec<u32>)
    ensures
        final(out)@ == old(out)@ + number_list(numbers@),
{
    out.append("[");
    let mut i: usize = 0;
    while i < numbers.len()
        invariant
            i <= numbers@.len(),
            out@ + list_tail(numbers@, i as int) == old(out)@ + "["@ + list_tail(numbers@, 0),
        decreases numbers@.len() - i,
    {
        let ghost before = out@;
        if i > 0 {
            out.append(", ");
        }
        append_decimal(out, numbers[i] as u64);
        assert(before + list_tail(numbers@, i as int) =~= out@ + list_tail(numbers@, i + 1));
        i += 1;
    }
    assert(out@ =~= old(out)@ + "["@ + list_tail(numbers@, 0));
    out.append("]");
    assert(out@ =~= old(out)@ + number_list(numbers@));
}

/// A decimal text has no leading zero: only the number zero begins with one.
pub proof fn law_decimal_has_no_leading_zero(n: nat)
    ensures
        decimal(n).len() > 0,
        decimal(n)[0] == '0' <==> n == 0,
        decimal(0) == seq!['0'],
    decreases n,
{
    if n >= 10 {
        law_decimal_has_no_leading_zero(n / 10);
        assert(decimal(n)[0] == decimal(n / 10)[0]);
    }
}

/// An integer can be read back from its text: a minus sign comes first exactly if it is
/// negative, and the digits after it are those of its size.
pub proof fn law_signed_decimal_reads_back(i: int)
    ensures
        signed_decimal(i).len() > 0,
        signed_decimal(i)[0] == '-' <==> i < 0,
        i < 0 ==> number_of(signed_decimal(i).skip(1)) == -i,
        i >= 0 ==> number_of(signed_decimal(i)) == i,
{
    if i < 0 {
        law_decimal_reads_back((-i) as nat);
        assert(signed_decimal(i).skip(1) =~= decimal((-i) as nat));
    } else {
        law_decimal_reads_back(i as nat);
        assert('0' <= decimal(i as nat)[0]);
    }
}

/// A text contains another exactly if it is made of some text, the other, and some text.
pub proof fn law_contained_text_has_sides(
    hay: Seq<char>,
    before: Seq<char>,
    needle: Seq<char>,
    after: Seq<char>,
)
    ensures
        contains(before + needle + after, needle),
        contains(hay, needle) ==> exists|at: int|
            0 <= at <= hay.len() - needle.len() && hay == #[trigger] hay.take(at) + needle
                + hay.skip(at + needle.len()),
{
    let whole = before + needle + after;
    assert(whole.subrange(before.len() as int, before.len() as int + needle.len()) =~= needle);
    assert(occurs_at(whole, needle, before.len() as int));
    if contains(hay, needle) {
        let at = choose|at: int| #[trigger] occurs_at(hay, needle, at);
        assert(hay =~= hay.take(at) + hay.subrange(at, at + needle.len()) + hay.skip(
            at + needle.len(),
        ));
    }
}

/// Two characters are one but for their case exactly if they are the same, or a letter from
/// `A` to `Z` and the one 32 places on.
pub open spec fn one_letter(a: char, b: char) -> bool {
    ||| a == b
    ||| 'A' <= a <= 'Z' && b as int == a as int + 32
    ||| 'A' <= b <= 'Z' && a as int == b as int + 32
}

/// Two texts are equal but for the case exactly if they are of one length and equal, character
/// by character, but for the case of the letters from `A` to `Z`.
pub proof fn law_case_is_folded(a: Seq<char>, b: Seq<char>)
    ensures
        same_but_for_case(a, b) <==> a.len() == b.len() && forall|i: int|
            0 <= i < a.len() ==> one_letter(#[trigger] a[i], b[i]),
{
    let lower = |c: char| ascii_lower(c);
    let x = a.map_values(lower);
    let y = b.map_values(lower);
    if same_but_for_case(a, b) {
        assert(x.len() == y.len());
        assert forall|i: int| 0 <= i < a.len() implies one_letter(#[trigger] a[i], b[i]) by {
            assert(x[i] == y[i]);
            lemma_lower_tells(a[i], b[i]);
        }
    }
    if a.len() == b.len() && forall|i: int| 0 <= i < a.len() ==> one_letter(#[trigger] a[i], b[i]) {
        assert forall|i: int| 0 <= i < x.len() implies #[trigger] x[i] == y[i] by {
            assert(one_letter(a[i], b[i]));
            lemma_lower_tells(a[i], b[i]);
        }
        assert(x =~= y);
    }
}

proof fn lemma_lower_tells(a: char, b: char)
    ensures
        ascii_lower(a) == ascii_lower(b) <==> one_letter(a, b),
{
}

/// A template that holds no mark for a value stays as it is.
pub proof fn law_text_without_marks_stays(template: Seq<char>)
    requires
        forall|i: int|
            0 <= i < template.len() - 1 ==> !(#[trigger] template[i] == '{' && template[i + 1]
                == '}'),
    ensures
        without_placeholders(template) == template,
    decreases template.len(),
{
    if template.len() > 0 {
        let rest = template.skip(1);
        assert forall|i: int| 0 <= i < rest.len() - 1 implies !(#[trigger] rest[i] == '{' && rest[i
            + 1] == '}') by {
            assert(template[i + 1] == rest[i]);
        }
        assert(!(template.len() >= 2 && template[0] == '{' && template[1] == '}'));
        law_text_without_marks_stays(rest);
        assert(seq![template[0]] + rest =~= template);
    }
}

/// A mark for a value is left out wherever it stands, and what stands before and after it is
/// treated alike.
pub proof fn law_marks_are_left_out(before: Seq<char>, after: Seq<char>)
    ensures
        without_placeholders(before + seq!['{', '}'] + after) == without_placeholders(before)
            + without_placeholders(after),
    decreases before.len(),
{
    let whole = before + seq!['{', '}'] + after;
    if before.len() == 0 {
        assert(whole.skip(2) =~= after);
        assert(without_placeholders(before) + without_placeholders(after)
            =~= without_placeholders(after));
    } else if before.len() >= 2 && before[0] == '{' && before[1] == '}' {
        assert(whole.skip(2) =~= before.skip(2) + seq!['{', '}'] + after);
        assert(whole[0] == '{' && whole[1] == '}');
        law_marks_are_left_out(before.skip(2), after);
    } else {
        assert(whole.skip(1) =~= before.skip(1) + seq!['{', '}'] + after);
        assert(whole[0] == before[0]);
        assert(whole[1] == if before.len() == 1 {
            '{'
        } else {
            before[1]
        });
        law_marks_are_left_out(before.skip(1), after);
        assert(without_placeholders(whole) =~= without_placeholders(before)
            + without_placeholders(after));
    }
}

proof fn lemma_tail_grows(numbers: Seq<u32>, number: u32, from: int)
    requires
        0 <= from <= numbers.len(),
    ensures
        list_tail(numbers.push(number), from) == list_tail(numbers, from) + (if numbers.len()
            == 0 {
            Seq::empty()
        } else {
            ", "@
        }) + decimal(number as nat),
    decreases numbers.len() - from,
{
    let more = numbers.push(number);
    if from == numbers.len() {
        assert(list_tail(more, from + 1) =~= Seq::<char>::empty());
        assert(list_tail(numbers, from) =~= Seq::<char>::empty());
        assert(list_tail(more, from) =~= (if from == 0 {
            Seq::empty()
        } else {
            ", "@
        }) + decimal(number as nat));
    } else {
        lemma_tail_grows(numbers, number, from + 1);
        assert(more[from] == numbers[from]);
        assert(list_tail(more, from) =~= list_tail(numbers, from) + (if numbers.len() == 0 {
            Seq::empty()
        } else {
            ", "@
        }) + decimal(number as nat));
    }
}

/// A list of numbers is written in square brackets. One number more is written behind the
/// others, after a comma and a space where there are others.
pub proof fn law_number_list_grows(numbers: Seq<u32>, number: u32)
    ensures
        number_list(Seq::empty()) == "["@ + "]"@,
        number_list(seq![number]) == "["@ + decimal(number as nat) + "]"@,
        numbers.len() > 0 ==> number_list(numbers.push(number)) == number_list(
            numbers,
        ).drop_last() + ", "@ + decimal(number as nat) + "]"@,
{
    reveal_strlit("]");
    let none = Seq::<u32>::empty();
    assert(list_tail(none, 0) =~= Seq::<char>::empty());
    assert(number_list(none) =~= "["@ + "]"@);
    lemma_tail_grows(none, number, 0);
    assert(none.push(number) =~= seq![number]);
    assert(number_list(seq![number]) =~= "["@ + decimal(number as nat) + "]"@);
    lemma_tail_grows(numbers, number, 0);
    assert(number_list(numbers).drop_last() =~= "["@ + list_tail(numbers, 0));
    if numbers.len() > 0 {
        assert(number_list(numbers.push(number)) =~= number_list(numbers).drop_last() + ", "@
            + decimal(number as nat) + "]"@);
    }
}

} // verus!
