//! Reading a comma-separated list given on the command line.
use vstd::prelude::*;

verus! {

/// Whether `c` is white space in the sense of Unicode's `White_Space`
/// property, the set that `char::is_whitespace` tests.
pub open spec fn is_white_space(c: char) -> bool {
    let u = c as u32;
    (0x9 <= u <= 0xd) || u == 0x20 || u == 0x85 || u == 0xa0 || u == 0x1680
        || (0x2000 <= u <= 0x200a) || u == 0x2028 || u == 0x2029 || u == 0x202f
        || u == 0x205f || u == 0x3000
}

/// `s` without its leading white space.
pub open spec fn trim_start(s: Seq<char>) -> Seq<char>
    decreases s.len(),
{
    if s.len() > 0 && is_white_space(s[0]) {
        trim_start(s.drop_first())
    } else {
        s
    }
}

/// `s` without its trailing white space.
pub open spec fn trim_end(s: Seq<char>) -> Seq<char>
    decreases s.len(),
{
    if s.len() > 0 && is_white_space(s.last()) {
        trim_end(s.drop_last())
    } else {
        s
    }
}

/// `s` without leading and trailing white space.
pub open spec fn trimmed(s: Seq<char>) -> Seq<char> {
    trim_end(trim_start(s))
}

/// The pieces of `s` between commas, in order: one more than there are
/// commas, empty pieces included.
pub open spec fn split_commas(s: Seq<char>) -> Seq<Seq<char>>
    decreases s.len(),
{
    if s.len() == 0 {
        seq![Seq::empty()]
    } else {
        let pieces = split_commas(s.drop_last());
        if s.last() == ',' {
            pieces.push(Seq::empty())
        } else {
            pieces.update(pieces.len() - 1, pieces.last().push(s.last()))
        }
    }
}

/// The items of a comma-separated list, each without surrounding white space.
pub open spec fn list_items(s: Seq<char>) -> Seq<Seq<char>> {
    split_commas(s).map_values(|p: Seq<char>| trimmed(p))
}

proof fn lemma_split_nonempty(s: Seq<char>)
    ensures
        split_commas(s).len() >= 1,
    decreases s.len(),
{
    if s.len() > 0 {
        lemma_split_nonempty(s.drop_last());
    }
}

/// Relies on `str::chars`, collected into a vector: the characters of the
/// string, in order.
#[verifier::external_body]
fn chars_of(s: &String) -> (r: Vec<char>)
    ensures
        r@ == s@,
{
    s.chars().collect()
}

/// Relies on `String::push`: appends one character.
#[verifier::external_body]
fn push_char(s: &mut String, c: char)
    ensures
        final(s)@ == old(s)@.push(c),
{
    s.push(c)
}

fn white_space(c: char) -> (r: bool)
    ensures
        r == is_white_space(c),
{
    let u = c as u32;
    (0x9 <= u && u <= 0xd) || u == 0x20 || u == 0x85 || u == 0xa0 || u == 0x1680
        || (0x2000 <= u && u <= 0x200a) || u == 0x2028 || u == 0x2029 || u == 0x202f
        || u == 0x205f || u == 0x3000
}

/// The characters of `cs` without surrounding white space, as a string.
fn trim_chars(cs: &Vec<char>) -> (r: String)
    ensures
        r@ == trimmed(cs@),
{
    let mut a: usize = 0;
    assert(cs@.subrange(0, cs.len() as int) =~= cs@);
    while a < cs.len() && white_space(cs[a])
        invariant
            a <= cs.len(),
            trim_start(cs@) == trim_start(cs@.subrange(a as int, cs.len() as int)),
        decreases cs.len() - a,
    {
        assert(cs@.subrange(a as int, cs.len() as int).drop_first()
            =~= cs@.subrange(a + 1, cs.len() as int));
        a = a + 1;
    }
    assert(trim_start(cs@) == cs@.subrange(a as int, cs.len() as int));
    let mut b: usize = cs.len();
    while b > a && white_space(cs[b - 1])
        invariant
            a <= b <= cs.len(),
            trim_end(cs@.subrange(a as int, cs.len() as int)) == trim_end(cs@.subrange(a as int, b as int)),
        decreases b,
    {
        assert(cs@.subrange(a as int, b as int).drop_last() =~= cs@.subrange(a as int, b - 1));
        b = b - 1;
    }
    let mut r = String::new();
    let mut i: usize = a;
    while i < b
        invariant
            a <= i <= b <= cs.len(),
            r@ == cs@.subrange(a as int, i as int),
        decreases b - i,
    {
        push_char(&mut r, cs[i]);
        i = i + 1;
        assert(r@ =~= cs@.subrange(a as int, i as int));
    }
    r
}

/// Reads comma-separated lists.
pub struct InputFormatter {}

impl InputFormatter {
    /// The items of the comma-separated list `value`, in order, each with
    /// surrounding white space removed; empty items are kept.
    pub fn input_to_vec(value: String) -> (r: Vec<String>)
        ensures
            r.deep_view() == list_items(value@),
    {
        let cs = chars_of(&value);
        let mut done: Vec<String> = Vec::new();
        let mut cur: Vec<char> = Vec::new();
        let mut i: usize = 0;
        proof {
            lemma_split_nonempty(cs@.take(0));
            assert(cs@.take(0) =~= Seq::<char>::empty());
        }
        while i < cs.len()
            invariant
                i <= cs.len(),
                split_commas(cs@.take(i as int)).len() >= 1,
                cur@ == split_commas(cs@.take(i as int)).last(),
                done.deep_view() == list_items(cs@.take(i as int)).drop_last(),
            decreases cs.len() - i,
        {
            let ghost pieces = split_commas(cs@.take(i as int));
            let ghost done0 = done.deep_view();
            assert(cs@.take(i + 1).drop_last() =~= cs@.take(i as int));
            if cs[i] == ',' {
                let t = trim_chars(&cur);
                done.push(t);
                cur = Vec::new();
                assert(done.deep_view() =~= list_items(cs@.take(i + 1)).drop_last()) by {
                    assert(split_commas(cs@.take(i + 1)) == pieces.push(Seq::empty()));
                    assert(done.deep_view() =~= done0.push(trimmed(pieces.last())));
                }
                assert(cur@ =~= split_commas(cs@.take(i + 1)).last());
            } else {
                cur.push(cs[i]);
                assert(split_commas(cs@.take(i + 1))
                    == pieces.update(pieces.len() - 1, pieces.last().push(cs@[i as int])));
                assert(done.deep_view() =~= list_items(cs@.take(i + 1)).drop_last());
            }
            i = i + 1;
        }
        let t = trim_chars(&cur);
        let ghost done0 = done.deep_view();
        done.push(t);
        assert(cs@.take(i as int) =~= cs@);
        assert(done.deep_view() =~= done0.push(trimmed(cur@)));
        assert(done.deep_view() =~= list_items(value@));
        done
    }
}

} // verus!
