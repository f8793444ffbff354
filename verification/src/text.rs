//! Lexical helpers: character-exact string equality, whitespace
//! tokenization, decimal parsing, and trailing-colon stripping.

use vstd::prelude::*;

verus! {

/// Character-by-character string equality, stated over the views.
pub fn str_eq(a: &str, b: &str) -> (r: bool)
    ensures
        r == (a@ == b@),
{
    let an = a.unicode_len();
    let bn = b.unicode_len();
    if an != bn {
        assert(a@ != b@);
        return false;
    }
    let mut i: usize = 0;
    while i < an
        invariant
            an == a@.len(),
            an == b@.len(),
            i <= an,
            forall|k: int| 0 <= k < i ==> a@[k] == b@[k],
        decreases an - i,
    {
        if a.get_char(i) != b.get_char(i) {
            assert(a@ != b@);
            return false;
        }
        i += 1;
    }
    assert(a@ =~= b@);
    true
}

/// The characters treated as field separators: ASCII whitespace.
pub open spec fn is_ws_char(c: char) -> bool {
    c == ' ' || c == '\t' || c == '\r' || c == '\n'
}

/// Executable mirror of `is_ws_char`.
pub fn is_ws(c: char) -> (r: bool)
    ensures
        r == is_ws_char(c),
{
    c == ' ' || c == '\t' || c == '\r' || c == '\n'
}

/// Whitespace splitting, from position zero, with `cur` the partial field
/// read so far: the fields are the maximal runs of non-whitespace characters.
pub open spec fn split_ws_from(s: Seq<char>, cur: Seq<char>) -> Seq<Seq<char>>
    decreases s.len(),
{
    if s.len() == 0 {
        if cur.len() == 0 {
            Seq::empty()
        } else {
            seq![cur]
        }
    } else if is_ws_char(s[0]) {
        if cur.len() == 0 {
            split_ws_from(s.drop_first(), Seq::empty())
        } else {
            seq![cur] + split_ws_from(s.drop_first(), Seq::empty())
        }
    } else {
        split_ws_from(s.drop_first(), cur.push(s[0]))
    }
}

/// The whitespace-separated fields of a line.
pub open spec fn split_ws(s: Seq<char>) -> Seq<Seq<char>> {
    split_ws_from(s, Seq::empty())
}

/// One skip step of a sequence: dropping the head of the tail at `i` is the
/// tail at `i + 1`.
pub proof fn lemma_skip_step<T>(s: Seq<T>, i: int)
    requires
        0 <= i < s.len(),
    ensures
        s.skip(i).len() == s.len() - i,
        s.skip(i)[0] == s[i],
        s.skip(i).drop_first() =~= s.skip(i + 1),
{
}

/// Reading a run of non-whitespace characters accumulates them onto the
/// partial field.
proof fn lemma_split_ws_scan(s: Seq<char>, i: int, j: int, cur: Seq<char>)
    requires
        0 <= i <= j <= s.len(),
        forall|m: int| i <= m < j ==> !is_ws_char(s[m]),
    ensures
        split_ws_from(s.skip(i), cur) == split_ws_from(s.skip(j), cur + s.subrange(i, j)),
    decreases j - i,
{
    if i < j {
        lemma_skip_step(s, i);
        lemma_split_ws_scan(s, i + 1, j, cur.push(s[i]));
        assert(cur.push(s[i]) + s.subrange(i + 1, j) =~= cur + s.subrange(i, j));
    } else {
        assert(cur + s.subrange(i, i) =~= cur);
    }
}

/// Split a line into its whitespace-separated fields.
pub fn split_whitespace_fields(s: &str) -> (r: Vec<String>)
    ensures
        r.deep_view() == split_ws(s@),
{
    let n = s.unicode_len();
    let mut out: Vec<String> = Vec::new();
    let mut i: usize = 0;
    proof {
        assert(s@.skip(0) =~= s@);
        assert(out.deep_view() =~= Seq::<Seq<char>>::empty());
        assert(Seq::<Seq<char>>::empty() + split_ws(s@) =~= split_ws(s@));
    }
    while i < n
        invariant
            n == s@.len(),
            i <= n,
            out.deep_view() + split_ws_from(s@.skip(i as int), Seq::empty()) == split_ws(s@),
        decreases n - i,
    {
        let c = s.get_char(i);
        if is_ws(c) {
            proof {
                lemma_skip_step(s@, i as int);
            }
            i += 1;
        } else {
            let mut j: usize = i + 1;
            while j < n && !is_ws(s.get_char(j))
                invariant
                    n == s@.len(),
                    i < j <= n,
                    forall|m: int| i <= m < j ==> !is_ws_char(s@[m]),
                decreases n - j,
            {
                j += 1;
            }
            let field = s.substring_char(i, j).to_owned();
            let ghost fv = field@;
            let ghost prev = out.deep_view();
            out.push(field);
            proof {
                lemma_split_ws_scan(s@, i as int, j as int, Seq::empty());
                assert(Seq::<char>::empty() + s@.subrange(i as int, j as int) =~= s@.subrange(
                    i as int,
                    j as int,
                ));
                assert(out.deep_view() =~~= prev.push(fv));
                if j < n {
                    lemma_skip_step(s@, j as int);
                    assert(split_ws_from(s@.skip(j as int), fv) == seq![fv] + split_ws_from(
                        s@.skip(j as int + 1),
                        Seq::empty(),
                    ));
                } else {
                    assert(s@.skip(j as int) =~= Seq::<char>::empty());
                    assert(split_ws_from(s@.skip(j as int), fv) == seq![fv]);
                    assert(split_ws_from(s@.skip(j as int), Seq::<char>::empty())
                        =~= Seq::<Seq<char>>::empty());
                }
                assert(prev + (seq![fv] + split_ws_from(s@.skip(j as int), Seq::<char>::empty()))
                    =~= prev.push(fv) + split_ws_from(s@.skip(j as int), Seq::<char>::empty()));
            }
            i = j;
        }
    }
    proof {
        assert(s@.skip(n as int) =~= Seq::<char>::empty());
        assert(out.deep_view() + Seq::<Seq<char>>::empty() =~= out.deep_view());
    }
    out
}

/// Decimal digits.
pub open spec fn is_digit_char(c: char) -> bool {
    0x30 <= c as int && c as int <= 0x39
}

/// Every character of the sequence is a decimal digit.
pub open spec fn all_digits(s: Seq<char>) -> bool {
    forall|i: int| 0 <= i < s.len() ==> is_digit_char(s[i])
}

/// The value of a sequence of decimal digits, most significant first.
pub open spec fn dec_val(s: Seq<char>) -> nat
    decreases s.len(),
{
    if s.len() == 0 {
        0
    } else {
        (dec_val(s.drop_last()) * 10 + (s.last() as int - 0x30)) as nat
    }
}

/// A prefix of a digit string is worth no more than the whole string.
proof fn lemma_dec_val_prefix(s: Seq<char>, k: int)
    requires
        0 <= k <= s.len(),
        all_digits(s),
    ensures
        dec_val(s.take(k)) <= dec_val(s),
    decreases s.len() - k,
{
    if k == s.len() {
        assert(s.take(k) =~= s);
    } else {
        assert(s.take(k + 1).drop_last() =~= s.take(k));
        assert(s.take(k + 1).last() == s[k]);
        lemma_dec_val_prefix(s, k + 1);
    }
}

/// What `parse_decimal_u32` accepts: an optional leading `+`, then one or
/// more decimal digits whose value fits in 32 bits.
pub open spec fn parse_u32_spec(s: Seq<char>) -> Option<u32> {
    let t = if s.len() > 0 && s[0] == '+' {
        s.drop_first()
    } else {
        s
    };
    if t.len() > 0 && all_digits(t) && dec_val(t) <= u32::MAX {
        Some(dec_val(t) as u32)
    } else {
        None
    }
}

/// Parse an unsigned 32-bit decimal number; `None` on any malformed or
/// out-of-range input.
pub fn parse_decimal_u32(s: &str) -> (r: Option<u32>)
    ensures
        r == parse_u32_spec(s@),
{
    let n = s.unicode_len();
    let mut i: usize = 0;
    if n > 0 && s.get_char(0) == '+' {
        i = 1;
    }
    let ghost off = i as int;
    let ghost t = s@.skip(off);
    proof {
        assert(t =~= (if s@.len() > 0 && s@[0] == '+' {
            s@.drop_first()
        } else {
            s@
        }));
    }
    if i >= n {
        return None;
    }
    let mut acc: u64 = 0;
    let mut j: usize = i;
    while j < n
        invariant
            n == s@.len(),
            off <= j as int <= n,
            off == 0 || off == 1,
            t == s@.skip(off),
            t == (if s@.len() > 0 && s@[0] == '+' {
                s@.drop_first()
            } else {
                s@
            }),
            t.len() == n - off,
            acc <= u32::MAX,
            acc as nat == dec_val(t.take(j - off)),
            forall|m: int| 0 <= m < j - off ==> is_digit_char(t[m]),
        decreases n - j,
    {
        let c = s.get_char(j);
        let v = c as u32;
        proof {
            assert(t[j - off] == s@[j as int]);
            assert(v as int == c as int);
        }
        if !(48 <= v && v <= 57) {
            assert(!all_digits(t));
            return None;
        }
        let d = (v - 48) as u64;
        proof {
            assert(t.take(j - off + 1).drop_last() =~= t.take(j - off));
            assert(t.take(j - off + 1).last() == t[j - off]);
            assert(d as int == t[j - off] as int - 0x30);
        }
        acc = acc * 10 + d;
        if acc > 0xFFFF_FFFF {
            proof {
                if all_digits(t) {
                    lemma_dec_val_prefix(t, j - off + 1);
                }
            }
            return None;
        }
        j += 1;
    }
    proof {
        assert(t.take(n - off) =~= t);
    }
    Some(acc as u32)
}

/// The name with every trailing `:` removed.
pub open spec fn strip_colons(s: Seq<char>) -> Seq<char>
    decreases s.len(),
{
    if s.len() > 0 && s.last() == ':' {
        strip_colons(s.drop_last())
    } else {
        s
    }
}

/// Remove every trailing `:` from a field.
pub fn strip_trailing_colons(s: &str) -> (r: String)
    ensures
        r@ == strip_colons(s@),
{
    let n = s.unicode_len();
    proof {
        assert(s@.take(n as int) =~= s@);
    }
    let mut e: usize = n;
    while e > 0 && s.get_char(e - 1) == ':'
        invariant
            n == s@.len(),
            e <= n,
            strip_colons(s@.take(e as int)) == strip_colons(s@),
        decreases e,
    {
        proof {
            assert(s@.take(e as int).drop_last() =~= s@.take(e - 1));
            assert(s@.take(e as int).last() == s@[e - 1]);
        }
        e -= 1;
    }
    let r = s.substring_char(0, e).to_owned();
    proof {
        assert(s@.subrange(0, e as int) =~= s@.take(e as int));
    }
    r
}

} // verus!
