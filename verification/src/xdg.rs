use vstd::prelude::*;

verus! {

/// The byte `~`.
pub const TILDE: u8 = 0x7e;

/// The byte `/`.
pub const SLASH: u8 = 0x2f;

/// Number of occurrences of byte `b` in `s`.
pub open spec fn count_byte(s: Seq<u8>, b: u8) -> nat
    decreases s.len(),
{
    if s.len() == 0 {
        0
    } else {
        count_byte(s.drop_last(), b) + if s.last() == b { 1nat } else { 0nat }
    }
}

/// The part of `s` that starts at its first `/` (empty when there is none).
pub open spec fn from_first_slash(s: Seq<u8>) -> Seq<u8>
    decreases s.len(),
{
    if s.len() == 0 {
        s
    } else if s[0] == SLASH {
        s
    } else {
        from_first_slash(s.drop_first())
    }
}

/// Whether `s` is a path that tilde expansion rewrites: it starts with `~`
/// and holds no other `~`.
pub open spec fn expands(s: Seq<u8>) -> bool {
    s.len() > 0 && s[0] == TILDE && count_byte(s, TILDE) == 1
}

/// Tilde expansion: an initial `~` or `~username` (everything up to the first
/// `/`) is replaced by `home`; any other path is left as it is.
pub open spec fn tilde_expansion(s: Seq<u8>, home: Seq<u8>) -> Seq<u8> {
    if expands(s) {
        home + from_first_slash(s)
    } else {
        s
    }
}

proof fn lemma_from_first_slash_step(s: Seq<u8>, i: int)
    requires
        0 <= i < s.len(),
        s[i] != SLASH,
    ensures
        from_first_slash(s.subrange(i, s.len() as int)) == from_first_slash(
            s.subrange(i + 1, s.len() as int),
        ),
{
    let t = s.subrange(i, s.len() as int);
    assert(t.drop_first() =~= s.subrange(i + 1, s.len() as int));
}

fn push_all(out: &mut Vec<u8>, s: &[u8], from: usize)
    requires
        from <= s@.len(),
    ensures
        final(out)@ == old(out)@ + s@.subrange(from as int, s@.len() as int),
{
    let mut i = from;
    while i < s.len()
        invariant
            from <= i <= s@.len(),
            out@ == old(out)@ + s@.subrange(from as int, i as int),
        decreases s@.len() - i,
    {
        out.push(s[i]);
        i = i + 1;
        assert(s@.subrange(from as int, i as int) =~= s@.subrange(from as int, (i - 1) as int).push(s@[i - 1]));
    }
}

/// Performs tilde expansion, replacing an initial `~` or `~username` with the
/// home directory `home` (the value of `$HOME`, which the caller reads). A
/// path that does not start with `~`, or that holds more than one `~`, is
/// returned unchanged.
pub fn tilde_expand(s: &[u8], home: &[u8]) -> (out: Vec<u8>)
    ensures
        out@ == tilde_expansion(s@, home@),
{
    let mut out: Vec<u8> = Vec::new();
    // count the tildes
    let mut count: usize = 0;
    let mut i: usize = 0;
    while i < s.len()
        invariant
            i <= s@.len(),
            count == count_byte(s@.take(i as int), TILDE),
            count <= i,
        decreases s@.len() - i,
    {
        assert(s@.take((i + 1) as int).drop_last() =~= s@.take(i as int));
        if s[i] == TILDE {
            count = count + 1;
        }
        i = i + 1;
    }
    assert(s@.take(s@.len() as int) =~= s@);
    if s.len() > 0 && s[0] == TILDE && count == 1 {
        // find the end of the user name
        let mut end: usize = 0;
        while end < s.len() && s[end] != SLASH
            invariant
                end <= s@.len(),
                from_first_slash(s@) == from_first_slash(s@.subrange(end as int, s@.len() as int)),
            decreases s@.len() - end,
        {
            proof {
                lemma_from_first_slash_step(s@, end as int);
            }
            end = end + 1;
        }
        assert(s@.subrange(0, s@.len() as int) =~= s@);
        assert(from_first_slash(s@.subrange(end as int, s@.len() as int)) == s@.subrange(
            end as int,
            s@.len() as int,
        ));
        push_all(&mut out, home, 0);
        assert(home@.subrange(0, home@.len() as int) =~= home@);
        push_all(&mut out, s, end);
        assert(out@ =~= home@ + from_first_slash(s@));
    } else {
        push_all(&mut out, s, 0);
        assert(s@.subrange(0, s@.len() as int) =~= s@);
        assert(out@ =~= s@);
    }
    out
}

} // verus!
