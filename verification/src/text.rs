//! Text helpers shared by the model, the deriver and the prompt builder:
//! placeholder substitution, list joining, and identifier slugs.

use vstd::prelude::*;

verus! {

/// Leftmost, non-overlapping replacement of every occurrence of `from`
/// (non-empty) by `to`, scanning left to right.
pub open spec fn replace_seq(s: Seq<char>, from: Seq<char>, to: Seq<char>) -> Seq<char>
    decreases s.len(),
{
    if s.len() == 0 {
        Seq::<char>::empty()
    } else if from.len() > 0 && s.len() >= from.len() && s.subrange(0, from.len() as int)
        == from {
        to + replace_seq(s.skip(from.len() as int), from, to)
    } else {
        seq![s[0]] + replace_seq(s.skip(1), from, to)
    }
}

/// The elements of `parts`, in order, separated by `sep`.
pub open spec fn join_with(parts: Seq<Seq<char>>, sep: Seq<char>) -> Seq<char>
    decreases parts.len(),
{
    if parts.len() == 0 {
        Seq::<char>::empty()
    } else if parts.len() == 1 {
        parts[0]
    } else {
        parts[0] + sep + join_with(parts.skip(1), sep)
    }
}

/// The views of a sequence of strings.
pub open spec fn str_views(v: Seq<String>) -> Seq<Seq<char>> {
    v.map_values(|s: String| s@)
}

/// Whether two string slices hold the same characters.
pub fn str_eq(a: &str, b: &str) -> (r: bool)
    ensures
        r == (a@ == b@),
{
    let x = a.to_owned();
    let y = b.to_owned();
    x == y
}

/// Whether `v` holds a string with the characters of `x`.
pub fn contains_string(v: &Vec<String>, x: &str) -> (r: bool)
    ensures
        r == str_views(v@).contains(x@),
{
    let n = v.len();
    let mut i: usize = 0;
    while i < n
        invariant
            n == v@.len(),
            i <= n,
            forall|j: int| 0 <= j < i ==> str_views(v@)[j] != x@,
        decreases n - i,
    {
        if str_eq(v[i].as_str(), x) {
            proof {
                assert(str_views(v@)[i as int] == x@);
            }
            return true;
        }
        i = i + 1;
    }
    false
}

fn join_from(parts: &Vec<String>, sep: &str, i: usize) -> (r: String)
    requires
        i <= parts@.len(),
    ensures
        r@ == join_with(str_views(parts@).skip(i as int), sep@),
    decreases parts@.len() - i,
{
    let ghost sv = str_views(parts@);
    if i >= parts.len() {
        proof {
            assert(sv.skip(i as int) =~= Seq::<Seq<char>>::empty());
        }
        String::new()
    } else if i + 1 == parts.len() {
        proof {
            assert(sv.skip(i as int).len() == 1);
            assert(sv.skip(i as int)[0] == sv[i as int]);
        }
        parts[i].clone()
    } else {
        let mut r = parts[i].clone();
        r.append(sep);
        let rest = join_from(parts, sep, i + 1);
        r.append(rest.as_str());
        proof {
            assert(sv.skip(i as int).len() > 1);
            assert(sv.skip(i as int)[0] == sv[i as int]);
            assert(sv.skip(i as int).skip(1) =~= sv.skip(i + 1));
        }
        r
    }
}

/// The strings of `parts`, in order, separated by `sep`.
pub fn join_strings(parts: &Vec<String>, sep: &str) -> (r: String)
    ensures
        r@ == join_with(str_views(parts@), sep@),
{
    let r = join_from(parts, sep, 0);
    proof {
        assert(str_views(parts@).skip(0) =~= str_views(parts@));
    }
    r
}

/// What `str::to_lowercase` returns: a function of the characters alone.
pub uninterp spec fn lower_of(s: Seq<char>) -> Seq<char>;

/// What `char::is_alphanumeric` returns: a function of the character alone.
pub uninterp spec fn is_alnum_char(c: char) -> bool;

/// Relies on `str::to_lowercase`: the result depends on the characters alone,
/// and lowercasing the empty string yields the empty string.
#[verifier::external_body]
pub(crate) fn lowercase_str(s: &str) -> (r: String)
    ensures
        r@ == lower_of(s@),
        s@.len() == 0 ==> r@.len() == 0,
{
    s.to_lowercase()
}

/// Relies on `char::is_alphanumeric`: the Unicode `Alphabetic` and `Nd`/`Nl`/`No`
/// properties of the character alone.
#[verifier::external_body]
pub(crate) fn char_is_alphanumeric(c: char) -> (r: bool)
    ensures
        r == is_alnum_char(c),
{
    c.is_alphanumeric()
}

/// Relies on `str::replace`: replaces all matches of `from` in `s` by `to`,
/// from left to right, non-overlapping.
#[verifier::external_body]
pub(crate) fn replace_str(s: &str, from: &str, to: &str) -> (r: String)
    requires
        from@.len() > 0,
    ensures
        r@ == replace_seq(s@, from@, to@),
{
    s.replace(from, to)
}

/// Slug of `s` processed from position `i` on: every maximal run of
/// alphanumeric characters is kept, runs are separated by single dashes.
/// `any` records whether a run was already emitted, `in_run` whether position
/// `i - 1` was alphanumeric.
pub open spec fn slug_rec(s: Seq<char>, i: int, any: bool, in_run: bool) -> Seq<char>
    decreases s.len() - i,
{
    if i < 0 || i >= s.len() {
        Seq::<char>::empty()
    } else if is_alnum_char(s[i]) {
        (if any && !in_run {
            seq!['-', s[i]]
        } else {
            seq![s[i]]
        }) + slug_rec(s, i + 1, true, true)
    } else {
        slug_rec(s, i + 1, any, false)
    }
}

/// The maximal alphanumeric runs of `s`, joined by single dashes.
pub open spec fn slug_of(s: Seq<char>) -> Seq<char> {
    slug_rec(s, 0, false, false)
}

} // verus!
