use vstd::prelude::*;
use vstd::std_specs::iter::IteratorSpec;

verus! {

/// Relies on `String::push`: appends one character at the end.
#[verifier::external_body]
fn push_char(s: &mut String, c: char)
    ensures
        final(s)@ == old(s)@.push(c),
{
    s.push(c);
}

/// The characters of `s`, in order.
pub fn chars_of(s: &str) -> (r: Vec<char>)
    ensures
        r@ == s@,
{
    broadcast use vstd::string::group_string_axioms;

    let mut it = s.chars();
    let mut r: Vec<char> = Vec::new();
    loop
        invariant
            r@ + it.remaining() == s@,
            it.obeys_prophetic_iter_laws(),
        ensures
            r@ == s@,
        decreases s@.len() - r@.len(),
    {
        match it.next() {
            Some(c) => {
                r.push(c);
                assert(r@ + it.remaining() =~= s@);
            },
            None => {
                assert(r@ =~= s@);
                break;
            },
        }
    }
    r
}

/// A `String` holding the characters of `v`.
pub fn string_of(v: &Vec<char>) -> (r: String)
    ensures
        r@ == v@,
{
    let mut r = String::new();
    let mut i: usize = 0;
    while i < v.len()
        invariant
            i <= v.len(),
            r@ == v@.take(i as int),
        decreases v.len() - i,
    {
        push_char(&mut r, v[i]);
        i += 1;
        assert(r@ =~= v@.take(i as int));
    }
    assert(r@ =~= v@);
    r
}

} // verus!

verus! {

/// Characters with the Unicode `White_Space` property.
pub open spec fn is_space(c: char) -> bool {
    let u = c as u32;
    (0x09 <= u && u <= 0x0D) || u == 0x20 || u == 0x85 || u == 0xA0 || u == 0x1680 || (0x2000
        <= u && u <= 0x200A) || u == 0x2028 || u == 0x2029 || u == 0x202F || u == 0x205F || u
        == 0x3000
}

pub open spec fn is_digit(c: char) -> bool {
    '0' <= c && c <= '9'
}

pub open spec fn is_hex_letter(c: char) -> bool {
    'a' <= c && c <= 'f'
}

/// Lower-case hexadecimal characters.
pub open spec fn is_hex(c: char) -> bool {
    is_digit(c) || is_hex_letter(c)
}

/// Every run of whitespace in `s` becomes a single `' '`.
pub open spec fn collapse_spaces(s: Seq<char>) -> Seq<char>
    decreases s.len(),
{
    if s.len() == 0 {
        Seq::empty()
    } else {
        let p = collapse_spaces(s.drop_last());
        let c = s.last();
        if is_space(c) {
            if s.len() >= 2 && is_space(s[s.len() - 2]) {
                p
            } else {
                p.push(' ')
            }
        } else {
            p.push(c)
        }
    }
}

/// The only whitespace in `t` is `' '`, and no two whitespace characters are adjacent.
pub open spec fn spaces_collapsed(t: Seq<char>) -> bool {
    &&& forall|i: int| 0 <= i < t.len() && is_space(#[trigger] t[i]) ==> t[i] == ' '
    &&& forall|i: int|
        0 <= i < t.len() - 1 ==> !(is_space(#[trigger] t[i]) && is_space(t[i + 1]))
}

/// Length of the run of hexadecimal characters that `s` starts with.
pub open spec fn hex_run_len(s: Seq<char>) -> nat
    decreases s.len(),
{
    if s.len() > 0 && is_hex(s[0]) {
        1 + hex_run_len(s.drop_first())
    } else {
        0
    }
}

pub open spec fn has_digit(t: Seq<char>) -> bool {
    exists|k: int| 0 <= k < t.len() && is_digit(#[trigger] t[k])
}

pub open spec fn has_hex_letter(t: Seq<char>) -> bool {
    exists|k: int| 0 <= k < t.len() && is_hex_letter(#[trigger] t[k])
}

/// A hexadecimal run that reads as an identifier: after its first six characters
/// it still holds both a digit and a letter.
pub open spec fn noisy_run(run: Seq<char>) -> bool {
    run.len() > 6 && has_digit(run.skip(6)) && has_hex_letter(run.skip(6))
}

pub open spec fn hash_prefix() -> Seq<char> {
    seq!['h', 'a', 's', 'h', ' ']
}

/// What a noisy run is narrated as: `"hash "` and its first six characters.
pub open spec fn hash_token(run: Seq<char>) -> Seq<char> {
    hash_prefix() + run.take(6)
}

/// Every maximal hexadecimal run that is noisy becomes its hash token.
pub open spec fn mask_hashes(s: Seq<char>) -> Seq<char>
    decreases s.len() via mask_hashes_decreases
{
    if s.len() == 0 {
        Seq::empty()
    } else if is_hex(s[0]) {
        let n = hex_run_len(s) as int;
        let run = s.take(n);
        (if noisy_run(run) {
            hash_token(run)
        } else {
            run
        }) + mask_hashes(s.skip(n))
    } else {
        seq![s[0]] + mask_hashes(s.drop_first())
    }
}

#[via_fn]
proof fn mask_hashes_decreases(s: Seq<char>) {
    if s.len() > 0 && is_hex(s[0]) {
        lemma_hex_run(s);
    }
}

/// The text cleanup applied to every utterance before it is spoken.
pub open spec fn clean(s: Seq<char>) -> Seq<char> {
    mask_hashes(collapse_spaces(s))
}

/// The run `s` starts with is all hexadecimal and is followed by a non-hexadecimal
/// character or by the end.
pub proof fn lemma_hex_run(s: Seq<char>)
    ensures
        hex_run_len(s) <= s.len(),
        s.len() > 0 && is_hex(s[0]) ==> hex_run_len(s) >= 1,
        forall|k: int| 0 <= k < hex_run_len(s) ==> is_hex(#[trigger] s[k]),
        hex_run_len(s) < s.len() ==> !is_hex(s[hex_run_len(s) as int]),
    decreases s.len(),
{
    if s.len() > 0 && is_hex(s[0]) {
        let t = s.drop_first();
        lemma_hex_run(t);
        assert forall|k: int| 0 <= k < hex_run_len(s) implies is_hex(#[trigger] s[k]) by {
            if k > 0 {
                assert(s[k] == t[k - 1]);
            }
        }
        if hex_run_len(s) < s.len() {
            assert(s[hex_run_len(s) as int] == t[hex_run_len(t) as int]);
        }
    }
}

/// A run that ends at `j` has length `j`.
pub proof fn lemma_hex_run_len_at(s: Seq<char>, j: int)
    requires
        0 <= j <= s.len(),
        forall|k: int| 0 <= k < j ==> is_hex(#[trigger] s[k]),
        j == s.len() || !is_hex(s[j]),
    ensures
        hex_run_len(s) == j,
    decreases j,
{
    if j > 0 {
        let t = s.drop_first();
        assert forall|k: int| 0 <= k < j - 1 implies is_hex(#[trigger] t[k]) by {
            assert(t[k] == s[k + 1]);
        }
        if j < s.len() {
            assert(t[j - 1] == s[j]);
        }
        lemma_hex_run_len_at(t, j - 1);
    }
}

} // verus!

verus! {

/// Masking works run by run, so it splits where no run crosses the seam.
pub proof fn lemma_mask_split(a: Seq<char>, b: Seq<char>)
    requires
        a.len() == 0 || b.len() == 0 || !is_hex(a.last()) || !is_hex(b[0]),
    ensures
        mask_hashes(a + b) == mask_hashes(a) + mask_hashes(b),
    decreases a.len(),
{
    let ab = a + b;
    if a.len() == 0 {
        assert(ab =~= b);
    } else if !is_hex(a[0]) {
        let a1 = a.drop_first();
        assert(ab.drop_first() =~= a1 + b);
        if a1.len() > 0 {
            assert(a1.last() == a.last());
        }
        lemma_mask_split(a1, b);
        assert(ab[0] == a[0]);
        assert(mask_hashes(ab) =~= mask_hashes(a) + mask_hashes(b));
    } else {
        lemma_hex_run(a);
        let m = hex_run_len(a) as int;
        assert forall|k: int| 0 <= k < m implies is_hex(#[trigger] ab[k]) by {
            assert(ab[k] == a[k]);
        }
        if m < a.len() {
            assert(ab[m] == a[m]);
        } else if b.len() > 0 {
            assert(a.last() == a[m - 1]);
            assert(ab[m] == b[0]);
        }
        lemma_hex_run_len_at(ab, m);
        let rest = a.skip(m);
        assert(ab.take(m) =~= a.take(m));
        assert(ab.skip(m) =~= rest + b);
        if rest.len() > 0 {
            assert(rest.last() == a.last());
        }
        lemma_mask_split(rest, b);
        assert(ab[0] == a[0]);
        assert(mask_hashes(ab) =~= mask_hashes(a) + mask_hashes(b));
    }
}

/// Masking keeps a non-hexadecimal first character, and never starts with whitespace
/// unless the input did.
pub proof fn lemma_mask_head(v: Seq<char>)
    ensures
        v.len() == 0 ==> mask_hashes(v).len() == 0,
        v.len() > 0 ==> mask_hashes(v).len() > 0 && (is_space(mask_hashes(v)[0]) <==> is_space(
            v[0],
        )),
        v.len() > 0 && !is_hex(v[0]) ==> mask_hashes(v)[0] == v[0],
{
    if v.len() > 0 {
        if is_hex(v[0]) {
            lemma_hex_run(v);
            let n = hex_run_len(v) as int;
            let run = v.take(n);
            if noisy_run(run) {
                assert(hash_token(run)[0] == 'h');
            } else {
                assert(run[0] == v[0]);
            }
        }
    }
}

pub proof fn lemma_mask_single(c: char)
    ensures
        mask_hashes(seq![c]) == seq![c],
{
    let s = seq![c];
    if is_hex(c) {
        lemma_hex_run_len_at(s, 1);
        assert(s.take(1) =~= s);
        assert(s.skip(1) =~= Seq::<char>::empty());
        assert(mask_hashes(Seq::<char>::empty()) =~= Seq::<char>::empty());
        assert(mask_hashes(s) =~= s);
    } else {
        assert(s.drop_first() =~= Seq::<char>::empty());
        assert(mask_hashes(Seq::<char>::empty()) =~= Seq::<char>::empty());
        assert(mask_hashes(s) =~= s);
    }
}

/// A run of hexadecimal characters that is not noisy stays as it is.
pub proof fn lemma_mask_quiet_run(run: Seq<char>)
    requires
        run.len() > 0,
        forall|k: int| 0 <= k < run.len() ==> is_hex(#[trigger] run[k]),
        !noisy_run(run),
    ensures
        mask_hashes(run) == run,
{
    lemma_hex_run_len_at(run, run.len() as int);
    assert(run.take(run.len() as int) =~= run);
    assert(run.skip(run.len() as int) =~= Seq::<char>::empty());
    assert(mask_hashes(Seq::<char>::empty()) =~= Seq::<char>::empty());
    assert(mask_hashes(run) =~= run);
}

/// A hash token is left alone by a second masking.
pub proof fn lemma_mask_token(run: Seq<char>)
    requires
        run.len() >= 6,
        forall|k: int| 0 <= k < run.len() ==> is_hex(#[trigger] run[k]),
    ensures
        mask_hashes(hash_token(run)) == hash_token(run),
{
    let six = run.take(6);
    assert(!noisy_run(six));
    lemma_mask_quiet_run(six);
    let h = hash_prefix();
    let h4 = seq!['h', 'a', 's', 'h'];
    let h3 = seq!['h', 'a', 's'];
    let h2 = seq!['h', 'a'];
    lemma_mask_single('h');
    lemma_mask_single('a');
    lemma_mask_single('s');
    lemma_mask_single(' ');
    assert(h2 =~= seq!['h'] + seq!['a']);
    lemma_mask_split(seq!['h'], seq!['a']);
    assert(h3 =~= h2 + seq!['s']);
    lemma_mask_split(h2, seq!['s']);
    assert(h4 =~= h3 + seq!['h']);
    lemma_mask_split(h3, seq!['h']);
    assert(h =~= h4 + seq![' ']);
    lemma_mask_split(h4, seq![' ']);
    lemma_mask_split(h, six);
}

/// Masking twice is masking once.
pub proof fn lemma_mask_idempotent(s: Seq<char>)
    ensures
        mask_hashes(mask_hashes(s)) == mask_hashes(s),
    decreases s.len(),
{
    if s.len() == 0 {
    } else if !is_hex(s[0]) {
        let s1 = s.drop_first();
        lemma_mask_idempotent(s1);
        lemma_mask_single(s[0]);
        lemma_mask_split(seq![s[0]], mask_hashes(s1));
    } else {
        lemma_hex_run(s);
        let n = hex_run_len(s) as int;
        let run = s.take(n);
        let rest = s.skip(n);
        let piece = if noisy_run(run) {
            hash_token(run)
        } else {
            run
        };
        assert forall|k: int| 0 <= k < run.len() implies is_hex(#[trigger] run[k]) by {
            assert(run[k] == s[k]);
        }
        if noisy_run(run) {
            lemma_mask_token(run);
            assert(piece.last() == run[5]);
        } else {
            lemma_mask_quiet_run(run);
            assert(piece.last() == run[n - 1]);
        }
        if rest.len() > 0 {
            assert(rest[0] == s[n]);
        }
        lemma_mask_head(rest);
        lemma_mask_idempotent(rest);
        lemma_mask_split(piece, mask_hashes(rest));
    }
}

} // verus!

verus! {

/// Collapsing leaves collapsed text, ending in whitespace exactly when the input did.
pub proof fn lemma_collapse_shape(s: Seq<char>)
    ensures
        spaces_collapsed(collapse_spaces(s)),
        s.len() == 0 <==> collapse_spaces(s).len() == 0,
        s.len() > 0 ==> (is_space(collapse_spaces(s).last()) <==> is_space(s.last())),
    decreases s.len(),
{
    if s.len() > 0 {
        let d = s.drop_last();
        lemma_collapse_shape(d);
        let p = collapse_spaces(d);
        if d.len() > 0 {
            assert(d.last() == s[s.len() - 2]);
        }
        let r = collapse_spaces(s);
        if !(is_space(s.last()) && s.len() >= 2 && is_space(s[s.len() - 2])) {
            assert forall|i: int| 0 <= i < r.len() && is_space(#[trigger] r[i]) implies r[i]
                == ' ' by {
                if i < p.len() {
                    assert(r[i] == p[i]);
                }
            }
            assert forall|i: int| 0 <= i < r.len() - 1 implies !(is_space(#[trigger] r[i])
                && is_space(r[i + 1])) by {
                if i + 1 < p.len() {
                    assert(r[i] == p[i] && r[i + 1] == p[i + 1]);
                } else {
                    assert(r[i] == p.last());
                }
            }
        }
    }
}

/// Collapsed text is its own collapse.
pub proof fn lemma_collapse_fixed(t: Seq<char>)
    requires
        spaces_collapsed(t),
    ensures
        collapse_spaces(t) == t,
    decreases t.len(),
{
    if t.len() > 0 {
        let d = t.drop_last();
        assert forall|i: int| 0 <= i < d.len() - 1 implies !(is_space(#[trigger] d[i])
            && is_space(d[i + 1])) by {
            assert(d[i] == t[i] && d[i + 1] == t[i + 1]);
        }
        assert forall|i: int| 0 <= i < d.len() && is_space(#[trigger] d[i]) implies d[i]
            == ' ' by {
            assert(d[i] == t[i]);
        }
        lemma_collapse_fixed(d);
        if t.len() >= 2 {
            assert(!(is_space(t[t.len() - 2]) && is_space(t[t.len() - 1])));
        }
        assert(collapse_spaces(t) =~= t);
    }
}

/// Two collapsed pieces whose seam holds at most one whitespace character make
/// collapsed text.
pub proof fn lemma_collapsed_concat(a: Seq<char>, b: Seq<char>)
    requires
        spaces_collapsed(a),
        spaces_collapsed(b),
        a.len() == 0 || b.len() == 0 || !(is_space(a.last()) && is_space(b[0])),
    ensures
        spaces_collapsed(a + b),
{
    let ab = a + b;
    assert forall|i: int| 0 <= i < ab.len() && is_space(#[trigger] ab[i]) implies ab[i]
        == ' ' by {
        if i < a.len() {
            assert(ab[i] == a[i]);
        } else {
            assert(ab[i] == b[i - a.len()]);
        }
    }
    assert forall|i: int| 0 <= i < ab.len() - 1 implies !(is_space(#[trigger] ab[i]) && is_space(
        ab[i + 1],
    )) by {
        if i + 1 < a.len() {
            assert(ab[i] == a[i] && ab[i + 1] == a[i + 1]);
        } else if i + 1 == a.len() {
            assert(ab[i] == a.last() && ab[i + 1] == b[0]);
        } else {
            assert(ab[i] == b[i - a.len()] && ab[i + 1] == b[i + 1 - a.len()]);
        }
    }
}

/// Masking keeps text collapsed.
pub proof fn lemma_mask_keeps_collapsed(u: Seq<char>)
    requires
        spaces_collapsed(u),
    ensures
        spaces_collapsed(mask_hashes(u)),
    decreases u.len(),
{
    if u.len() > 0 {
        if !is_hex(u[0]) {
            let u1 = u.drop_first();
            assert forall|i: int| 0 <= i < u1.len() - 1 implies !(is_space(#[trigger] u1[i])
                && is_space(u1[i + 1])) by {
                assert(u1[i] == u[i + 1] && u1[i + 1] == u[i + 2]);
            }
            assert forall|i: int| 0 <= i < u1.len() && is_space(#[trigger] u1[i]) implies u1[i]
                == ' ' by {
                assert(u1[i] == u[i + 1]);
            }
            lemma_mask_keeps_collapsed(u1);
            lemma_mask_head(u1);
            if u1.len() > 0 {
                assert(u1[0] == u[1]);
            }
            assert(spaces_collapsed(seq![u[0]]));
            lemma_collapsed_concat(seq![u[0]], mask_hashes(u1));
        } else {
            lemma_hex_run(u);
            let n = hex_run_len(u) as int;
            let run = u.take(n);
            let rest = u.skip(n);
            assert forall|i: int| 0 <= i < rest.len() - 1 implies !(is_space(#[trigger] rest[i])
                && is_space(rest[i + 1])) by {
                assert(rest[i] == u[i + n] && rest[i + 1] == u[i + 1 + n]);
            }
            assert forall|i: int| 0 <= i < rest.len() && is_space(#[trigger] rest[i])
                implies rest[i] == ' ' by {
                assert(rest[i] == u[i + n]);
            }
            lemma_mask_keeps_collapsed(rest);
            assert forall|k: int| 0 <= k < run.len() implies is_hex(#[trigger] run[k]) by {
                assert(run[k] == u[k]);
            }
            let piece = if noisy_run(run) {
                hash_token(run)
            } else {
                run
            };
            assert forall|i: int| 0 <= i < piece.len() && is_space(#[trigger] piece[i]) implies i
                == 4 && piece[i] == ' ' by {
                if noisy_run(run) {
                    if i >= 5 {
                        assert(piece[i] == run[i - 5]);
                    }
                }
            }
            assert(spaces_collapsed(piece));
            if noisy_run(run) {
                assert(piece.last() == run[5]);
            } else {
                assert(piece.last() == run[n - 1]);
            }
            lemma_collapsed_concat(piece, mask_hashes(rest));
        }
    }
}

/// The text cleanup is idempotent: cleaning cleaned text changes nothing.
pub proof fn lemma_clean_idempotent(s: Seq<char>)
    ensures
        clean(clean(s)) == clean(s),
{
    let u = collapse_spaces(s);
    lemma_collapse_shape(s);
    lemma_mask_keeps_collapsed(u);
    lemma_collapse_fixed(mask_hashes(u));
    lemma_mask_idempotent(u);
}

} // verus!

verus! {

pub fn is_space_char(c: char) -> (r: bool)
    ensures
        r == is_space(c),
{
    let u = c as u32;
    (0x09 <= u && u <= 0x0D) || u == 0x20 || u == 0x85 || u == 0xA0 || u == 0x1680 || (0x2000
        <= u && u <= 0x200A) || u == 0x2028 || u == 0x2029 || u == 0x202F || u == 0x205F || u
        == 0x3000
}

pub fn is_hex_char(c: char) -> (r: bool)
    ensures
        r == is_hex(c),
{
    ('0' <= c && c <= '9') || ('a' <= c && c <= 'f')
}

fn push_range(out: &mut Vec<char>, s: &Vec<char>, from: usize, to: usize)
    requires
        from <= to <= s.len(),
    ensures
        final(out)@ == old(out)@ + s@.subrange(from as int, to as int),
{
    let ghost start = out@;
    let mut k: usize = from;
    while k < to
        invariant
            from <= k <= to <= s.len(),
            out@ == start + s@.subrange(from as int, k as int),
        decreases to - k,
    {
        out.push(s[k]);
        k += 1;
        assert(out@ =~= start + s@.subrange(from as int, k as int));
    }
}

/// Replaces every run of whitespace with one space.
pub fn collapse_spaces_in(s: &Vec<char>) -> (r: Vec<char>)
    ensures
        r@ == collapse_spaces(s@),
{
    let mut out: Vec<char> = Vec::new();
    let mut i: usize = 0;
    assert(s@.take(0) =~= Seq::<char>::empty());
    while i < s.len()
        invariant
            i <= s.len(),
            out@ == collapse_spaces(s@.take(i as int)),
        decreases s.len() - i,
    {
        let c = s[i];
        let ghost t = s@.take(i as int + 1);
        assert(t.drop_last() =~= s@.take(i as int));
        assert(t.last() == c);
        if is_space_char(c) {
            if i >= 1 && is_space_char(s[i - 1]) {
                assert(t[t.len() - 2] == s@[i - 1]);
            } else {
                if i >= 1 {
                    assert(t[t.len() - 2] == s@[i - 1]);
                }
                out.push(' ');
            }
        } else {
            out.push(c);
        }
        i += 1;
    }
    assert(s@.take(s.len() as int) =~= s@);
    out
}

/// Replaces every noisy hexadecimal run with its hash token.
pub fn mask_hashes_in(s: &Vec<char>) -> (r: Vec<char>)
    ensures
        r@ == mask_hashes(s@),
{
    let mut out: Vec<char> = Vec::new();
    let mut i: usize = 0;
    assert(s@.skip(0) =~= s@);
    while i < s.len()
        invariant
            i <= s.len(),
            mask_hashes(s@) == out@ + mask_hashes(s@.skip(i as int)),
        decreases s.len() - i,
    {
        let ghost t = s@.skip(i as int);
        let ghost before = out@;
        let c = s[i];
        assert(t[0] == c);
        if !is_hex_char(c) {
            out.push(c);
            assert(t.drop_first() =~= s@.skip(i as int + 1));
            i += 1;
            assert(mask_hashes(s@) =~= out@ + mask_hashes(s@.skip(i as int)));
        } else {
            let mut j: usize = i;
            let mut digit_after = false;
            let mut letter_after = false;
            while j < s.len() && is_hex_char(s[j])
                invariant
                    i <= j <= s.len(),
                    forall|k: int| i <= k < j ==> is_hex(#[trigger] s@[k]),
                    digit_after ==> exists|k: int| i + 6 <= k < j && is_digit(#[trigger] s@[k]),
                    !digit_after ==> forall|k: int| i + 6 <= k < j ==> !is_digit(#[trigger] s@[k]),
                    letter_after ==> exists|k: int|
                        i + 6 <= k < j && is_hex_letter(#[trigger] s@[k]),
                    !letter_after ==> forall|k: int|
                        i + 6 <= k < j ==> !is_hex_letter(#[trigger] s@[k]),
                decreases s.len() - j,
            {
                if j - i >= 6 {
                    if '0' <= s[j] && s[j] <= '9' {
                        digit_after = true;
                    } else {
                        letter_after = true;
                    }
                }
                j += 1;
            }
            let n = j - i;
            let ghost run = t.take(n as int);
            proof {
                assert forall|k: int| 0 <= k < n implies is_hex(#[trigger] t[k]) by {
                    assert(t[k] == s@[i + k]);
                }
                if j < s.len() {
                    assert(t[n as int] == s@[j as int]);
                }
                lemma_hex_run_len_at(t, n as int);
                assert(t.skip(n as int) =~= s@.skip(j as int));
                if n > 6 {
                    let tail = run.skip(6);
                    if digit_after {
                        let k = choose|k: int| i + 6 <= k < j && is_digit(#[trigger] s@[k]);
                        assert(tail[k - i - 6] == s@[k]);
                    } else {
                        assert forall|m: int| 0 <= m < tail.len() implies !is_digit(
                            #[trigger] tail[m],
                        ) by {
                            assert(tail[m] == s@[i + 6 + m]);
                        }
                    }
                    if letter_after {
                        let k = choose|k: int| i + 6 <= k < j && is_hex_letter(#[trigger] s@[k]);
                        assert(tail[k - i - 6] == s@[k]);
                    } else {
                        assert forall|m: int| 0 <= m < tail.len() implies !is_hex_letter(
                            #[trigger] tail[m],
                        ) by {
                            assert(tail[m] == s@[i + 6 + m]);
                        }
                    }
                }
                assert(run =~= s@.subrange(i as int, j as int));
            }
            if n > 6 && digit_after && letter_after {
                out.push('h');
                out.push('a');
                out.push('s');
                out.push('h');
                out.push(' ');
                push_range(&mut out, s, i, i + 6);
                assert(out@ =~= before + hash_token(run));
            } else {
                push_range(&mut out, s, i, j);
            }
            i = j;
        }
    }
    assert(s@.skip(s.len() as int) =~= Seq::<char>::empty());
    assert(mask_hashes(Seq::<char>::empty()) =~= Seq::<char>::empty());
    assert(out@ =~= out@ + Seq::<char>::empty());
    out
}

/// Cleans a character sequence for speech: whitespace runs become one space, then
/// noisy hexadecimal runs become hash tokens.
pub fn clean_chars(s: &Vec<char>) -> (r: Vec<char>)
    ensures
        r@ == clean(s@),
{
    let collapsed = collapse_spaces_in(s);
    mask_hashes_in(&collapsed)
}

/// Cleans `text` for speech.
pub fn clean_text(text: &str) -> (r: String)
    ensures
        r@ == clean(text@),
{
    let v = chars_of(text);
    let c = clean_chars(&v);
    string_of(&c)
}

} // verus!

verus! {

pub open spec fn trim_start(s: Seq<char>) -> Seq<char>
    decreases s.len(),
{
    if s.len() > 0 && is_space(s[0]) {
        trim_start(s.drop_first())
    } else {
        s
    }
}

pub open spec fn trim_end(s: Seq<char>) -> Seq<char>
    decreases s.len(),
{
    if s.len() > 0 && is_space(s.last()) {
        trim_end(s.drop_last())
    } else {
        s
    }
}

/// `s` without leading and trailing whitespace.
pub open spec fn trim(s: Seq<char>) -> Seq<char> {
    trim_end(trim_start(s))
}

/// The non-empty parts, in order, separated by `", "`.
pub open spec fn join_nonempty(parts: Seq<Seq<char>>) -> Seq<char>
    decreases parts.len(),
{
    if parts.len() == 0 {
        Seq::empty()
    } else {
        let rest = join_nonempty(parts.drop_first());
        let p = parts[0];
        if p.len() == 0 {
            rest
        } else if rest.len() == 0 {
            p
        } else {
            p + seq![',', ' '] + rest
        }
    }
}

/// What a focus change says, before cleanup: name, help text and role, each
/// trimmed, the empty ones left out.
pub open spec fn composite(name: Seq<char>, help: Seq<char>, role: Seq<char>) -> Seq<char> {
    join_nonempty(seq![trim(name), trim(help), trim(role)])
}

/// What a focus change says.
pub open spec fn focus_utterance(name: Seq<char>, help: Seq<char>, role: Seq<char>) -> Seq<
    char,
> {
    clean(composite(name, help, role))
}

proof fn lemma_trim_start_skip(s: Seq<char>, a: int)
    requires
        0 <= a <= s.len(),
        forall|k: int| 0 <= k < a ==> is_space(#[trigger] s[k]),
    ensures
        trim_start(s) == trim_start(s.skip(a)),
    decreases a,
{
    if a > 0 {
        let t = s.drop_first();
        assert forall|k: int| 0 <= k < a - 1 implies is_space(#[trigger] t[k]) by {
            assert(t[k] == s[k + 1]);
        }
        lemma_trim_start_skip(t, a - 1);
        assert(t.skip(a - 1) =~= s.skip(a));
        assert(is_space(s[0]));
    } else {
        assert(s.skip(0) =~= s);
    }
}

proof fn lemma_trim_end_take(s: Seq<char>, b: int)
    requires
        0 <= b <= s.len(),
        forall|k: int| b <= k < s.len() ==> is_space(#[trigger] s[k]),
    ensures
        trim_end(s) == trim_end(s.take(b)),
    decreases s.len() - b,
{
    if b < s.len() {
        let t = s.drop_last();
        assert(s.last() == s[s.len() - 1]);
        assert forall|k: int| b <= k < t.len() implies is_space(#[trigger] t[k]) by {
            assert(t[k] == s[k]);
        }
        lemma_trim_end_take(t, b);
        assert(t.take(b) =~= s.take(b));
    } else {
        assert(s.take(b) =~= s);
    }
}

/// The characters of `s` without leading and trailing whitespace.
pub fn trim_chars(s: &Vec<char>) -> (r: Vec<char>)
    ensures
        r@ == trim(s@),
{
    let mut a: usize = 0;
    while a < s.len() && is_space_char(s[a])
        invariant
            a <= s.len(),
            forall|k: int| 0 <= k < a ==> is_space(#[trigger] s@[k]),
        decreases s.len() - a,
    {
        a += 1;
    }
    let mut b: usize = s.len();
    while b > a && is_space_char(s[b - 1])
        invariant
            a <= b <= s.len(),
            forall|k: int| b <= k < s.len() ==> is_space(#[trigger] s@[k]),
        decreases b,
    {
        b -= 1;
    }
    let mut r: Vec<char> = Vec::new();
    push_range(&mut r, s, a, b);
    proof {
        lemma_trim_start_skip(s@, a as int);
        let u = s@.skip(a as int);
        if u.len() > 0 {
            assert(u[0] == s@[a as int]);
        }
        assert(trim_start(u) == u);
        assert forall|k: int| b - a <= k < u.len() implies is_space(#[trigger] u[k]) by {
            assert(u[k] == s@[a + k]);
        }
        lemma_trim_end_take(u, b - a);
        let w = u.take(b - a);
        if w.len() > 0 {
            assert(w.last() == s@[b - 1]);
        }
        assert(trim_end(w) == w);
        assert(w =~= s@.subrange(a as int, b as int));
    }
    r
}

/// `p` in front of `rest`, with `", "` between them when both are non-empty.
fn join_front(p: &Vec<char>, rest: Vec<char>) -> (r: Vec<char>)
    ensures
        r@ == (if p@.len() == 0 {
            rest@
        } else if rest@.len() == 0 {
            p@
        } else {
            p@ + seq![',', ' '] + rest@
        }),
{
    if p.len() == 0 {
        return rest;
    }
    let mut r: Vec<char> = Vec::new();
    push_range(&mut r, p, 0, p.len());
    if rest.len() > 0 {
        r.push(',');
        r.push(' ');
        push_range(&mut r, &rest, 0, rest.len());
    }
    assert(p@.subrange(0, p@.len() as int) =~= p@);
    assert(rest@.subrange(0, rest@.len() as int) =~= rest@);
    assert(r@ =~= (if rest@.len() == 0 {
        p@
    } else {
        p@ + seq![',', ' '] + rest@
    }));
    r
}

/// The composite utterance of a focus change: the non-empty ones of the trimmed
/// name, help text and role, joined by `", "`.
pub fn compose_utterance(name: &str, help: &str, role: &str) -> (r: Vec<char>)
    ensures
        r@ == composite(name@, help@, role@),
{
    let a = trim_chars(&chars_of(name));
    let b = trim_chars(&chars_of(help));
    let c = trim_chars(&chars_of(role));
    let r3 = join_front(&c, Vec::new());
    let r2 = join_front(&b, r3);
    let r1 = join_front(&a, r2);
    proof {
        let parts = seq![a@, b@, c@];
        let after_name = parts.drop_first();
        let after_help = after_name.drop_first();
        assert(after_name =~= seq![b@, c@]);
        assert(after_help =~= seq![c@]);
        assert(after_help.drop_first() =~= Seq::<Seq<char>>::empty());
        assert(join_nonempty(after_help.drop_first()) =~= Seq::<char>::empty());
        assert(after_help[0] == c@);
        assert(join_nonempty(after_help) == r3@);
        assert(join_nonempty(after_name) == r2@);
        assert(join_nonempty(parts) == r1@);
    }
    r1
}

/// The cleaned utterance of a focus change.
pub fn focus_text(name: &str, help: &str, role: &str) -> (r: String)
    ensures
        r@ == focus_utterance(name@, help@, role@),
{
    let composed = compose_utterance(name, help, role);
    let cleaned = clean_chars(&composed);
    string_of(&cleaned)
}

} // verus!
