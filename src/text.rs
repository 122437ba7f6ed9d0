use vstd::prelude::*;

verus! {

/// What `str::to_lowercase` makes of a sequence of characters.
pub uninterp spec fn lower_of(s: Seq<char>) -> Seq<char>;

/// Relies on `str::to_lowercase`: the lower-cased text depends on the
/// characters of its argument alone, and an empty text stays empty.
#[verifier::external_body]
fn to_lowercase(s: &str) -> (r: String)
    ensures
        r@ == lower_of(s@),
        s@.len() == 0 ==> r@.len() == 0,
{
    s.to_lowercase()
}

/// The lookup key of a name: the name lower-cased.
pub fn lowercase(s: &str) -> (r: String)
    ensures
        r@ == lower_of(s@),
{
    to_lowercase(s)
}

/// The characters of each string of a sequence.
pub open spec fn strs_view(v: Seq<String>) -> Seq<Seq<char>> {
    v.map_values(|s: String| s@)
}

/// `parts` joined with `sep` between each two neighbours.
pub open spec fn join(parts: Seq<Seq<char>>, sep: Seq<char>) -> Seq<char>
    decreases parts.len(),
{
    if parts.len() == 0 {
        Seq::empty()
    } else if parts.len() == 1 {
        parts[0]
    } else {
        join(parts.drop_last(), sep) + sep + parts.last()
    }
}

/// `s` preceded by as many spaces as make it `width` characters long, or `s`
/// itself where it already has that many.
pub open spec fn right_justify(s: Seq<char>, width: nat) -> Seq<char> {
    if s.len() < width {
        Seq::new((width - s.len()) as nat, |i: int| ' ') + s
    } else {
        s
    }
}

/// Joins `parts` with `sep` between each two neighbours.
pub fn join_strings(parts: &Vec<String>, sep: &str) -> (r: String)
    ensures
        r@ == join(strs_view(parts@), sep@),
{
    let mut r = String::new();
    let mut i: usize = 0;
    while i < parts.len()
        invariant
            i <= parts.len(),
            r@ == join(strs_view(parts@).take(i as int), sep@),
        decreases parts.len() - i,
    {
        let ghost before = strs_view(parts@).take(i as int);
        if i > 0 {
            r.append(sep);
        }
        r.append(parts[i].as_str());
        proof {
            let after = strs_view(parts@).take(i + 1);
            assert(after.drop_last() =~= before);
            assert(after.last() == parts@[i as int]@);
            if i == 0 {
                assert(before.len() == 0);
                assert(r@ =~= parts@[0]@);
            }
        }
        i = i + 1;
    }
    assert(strs_view(parts@).take(parts.len() as int) =~= strs_view(parts@));
    r
}

/// Appends to `out` the text `s` right-justified to `width` characters.
pub fn push_right_justified(out: &mut String, s: &str, width: usize)
    ensures
        final(out)@ == old(out)@ + right_justify(s@, width as nat),
{
    let len = s.unicode_len();
    let ghost start = out@;
    if len < width {
        let pad = width - len;
        let mut k: usize = 0;
        while k < pad
            invariant
                k <= pad,
                pad == width - len,
                out@ == start + Seq::new(k as nat, |i: int| ' '),
            decreases pad - k,
        {
            out.append(" ");
            proof {
                reveal_strlit(" ");
            }
            assert(out@ =~= start + Seq::new((k + 1) as nat, |i: int| ' '));
            k = k + 1;
        }
    }
    out.append(s);
    assert(out@ =~= start + right_justify(s@, width as nat));
}

} // verus!
