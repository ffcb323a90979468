use vstd::prelude::*;

verus! {

/// ASCII whitespace: space, tab, line feed, form feed and carriage return.
pub open spec fn is_blank(c: char) -> bool {
    c == ' ' || c == '\t' || c == '\n' || c == '\x0C' || c == '\r'
}

pub open spec fn is_digit(c: char) -> bool {
    '0' <= c && c <= '9'
}

/// The number that a string of decimal digits denotes.
pub open spec fn digits_value(d: Seq<char>) -> nat
    decreases d.len(),
{
    if d.len() == 0 {
        0
    } else {
        digits_value(d.drop_last()) * 10 + ((d.last() as u32 - '0' as u32) as nat)
    }
}

/// The digits of a token: the token without one leading `+`.
pub open spec fn digits_of(t: Seq<char>) -> Seq<char> {
    if t.len() > 0 && t[0] == '+' {
        t.drop_first()
    } else {
        t
    }
}

/// An optional `+` followed by one or more decimal digits.
pub open spec fn is_decimal(t: Seq<char>) -> bool {
    let d = digits_of(t);
    d.len() > 0 && forall|i: int| 0 <= i < d.len() ==> is_digit(#[trigger] d[i])
}

pub open spec fn decimal_value(t: Seq<char>) -> nat {
    digits_value(digits_of(t))
}

/// The token denotes an unsigned decimal integer that fits in a `u64`.
pub open spec fn is_u64(t: Seq<char>) -> bool {
    is_decimal(t) && decimal_value(t) <= u64::MAX
}

/// The whitespace-separated fields of a line, in order, none of them empty.
pub open spec fn fields(s: Seq<char>) -> Seq<Seq<char>>
    decreases s.len(),
{
    if s.len() == 0 {
        seq![]
    } else {
        let prev = fields(s.drop_last());
        let c = s.last();
        if is_blank(c) {
            prev
        } else if s.len() > 1 && !is_blank(s[s.len() - 2]) {
            prev.drop_last().push(prev.last().push(c))
        } else {
            prev.push(seq![c])
        }
    }
}

proof fn lemma_digits_value_grows(d: Seq<char>, j: int, n: int)
    requires
        0 <= j <= n <= d.len(),
        forall|i: int| 0 <= i < d.len() ==> is_digit(#[trigger] d[i]),
    ensures
        digits_value(d.take(j)) <= digits_value(d.take(n)),
    decreases n - j,
{
    if j < n {
        lemma_digits_value_grows(d, j, n - 1);
        assert(d.take(n).drop_last() =~= d.take(n - 1));
    }
}

pub open spec fn views(v: Seq<Vec<char>>) -> Seq<Seq<char>> {
    v.map_values(|w: Vec<char>| w@)
}

/// Splits a line into its whitespace-separated fields.
pub fn split_fields(s: &Vec<char>) -> (r: Vec<Vec<char>>)
    ensures
        views(r@) == fields(s@),
{
    let mut done: Vec<Vec<char>> = Vec::new();
    let mut cur: Vec<char> = Vec::new();
    let mut i: usize = 0;
    while i < s.len()
        invariant
            i <= s.len(),
            fields(s@.take(i as int)) == if cur.len() > 0 {
                views(done@).push(cur@)
            } else {
                views(done@)
            },
            cur.len() > 0 <==> (i > 0 && !is_blank(s@[i - 1])),
        decreases s.len() - i,
    {
        let c: char = s[i];
        proof {
            assert(s@.take(i + 1).drop_last() =~= s@.take(i as int));
            assert(s@.take(i + 1).last() == c);
        }
        if c == ' ' || c == '\t' || c == '\n' || c == '\x0C' || c == '\r' {
            if cur.len() > 0 {
                let ghost old_done = done@;
                done.push(cur);
                proof {
                    assert(views(done@) =~= views(old_done).push(cur@));
                }
                cur = Vec::new();
            }
        } else {
            let ghost old_cur = cur@;
            cur.push(c);
            proof {
                let t = s@.take(i + 1);
                if old_cur.len() > 0 {
                    let prev = views(done@).push(old_cur);
                    assert(prev.drop_last() =~= views(done@));
                    assert(t[i - 1] == s@[i - 1]);
                    assert(fields(t) == prev.drop_last().push(prev.last().push(c)));
                } else {
                    assert(old_cur.push(c) =~= seq![c]);
                    if i > 0 {
                        assert(t[i - 1] == s@[i - 1]);
                    }
                    assert(fields(t) == views(done@).push(seq![c]));
                }
            }
        }
        i = i + 1;
    }
    assert(s@.take(s.len() as int) =~= s@);
    if cur.len() > 0 {
        let ghost old_done = done@;
        done.push(cur);
        proof {
            assert(views(done@) =~= views(old_done).push(cur@));
        }
    }
    done
}

/// The characters of a string slice.
pub fn chars_of(s: &str) -> (r: Vec<char>)
    ensures
        r@ == s@,
{
    let mut r: Vec<char> = Vec::new();
    for c in it: s.chars()
        invariant
            it.seq() == s@,
            r@ == it.seq().take(it.index() as int),
    {
        r.push(c);
    }
    r
}

/// Reads an unsigned decimal integer: an optional `+` and one or more digits,
/// nothing else, of a value that fits in a `u64`.
pub fn parse_u64(t: &[char]) -> (r: Option<u64>)
    ensures
        r == (if is_u64(t@) {
            Some(decimal_value(t@) as u64)
        } else {
            None::<u64>
        }),
{
    let start: usize = if t.len() > 0 && t[0] == '+' {
        1
    } else {
        0
    };
    let ghost d = digits_of(t@);
    assert(d =~= t@.skip(start as int));
    if start >= t.len() {
        return None;
    }
    let mut i: usize = start;
    while i < t.len()
        invariant
            start <= i <= t.len(),
            d =~= t@.skip(start as int),
            d == digits_of(t@),
            forall|k: int| 0 <= k < i - start ==> is_digit(#[trigger] d[k]),
        decreases t.len() - i,
    {
        if !('0' <= t[i] && t[i] <= '9') {
            assert(d[i - start] == t@[i as int]);
            assert(!is_digit(d[i - start]));
            return None;
        }
        i = i + 1;
    }
    let mut v: u64 = 0;
    let mut i: usize = start;
    while i < t.len()
        invariant
            start <= i <= t.len(),
            d =~= t@.skip(start as int),
            d == digits_of(t@),
            forall|k: int| 0 <= k < d.len() ==> is_digit(#[trigger] d[k]),
            v == digits_value(d.take(i - start)),
        decreases t.len() - i,
    {
        let c: char = t[i];
        proof {
            assert(d[i - start] == c);
            assert(is_digit(c));
        }
        let dig: u64 = (c as u32 - '0' as u32) as u64;
        proof {
            assert(d.take(i - start + 1).drop_last() =~= d.take(i - start));
            assert(d.take(i - start + 1).last() == t@[i as int]);
            assert(digits_value(d.take(i - start + 1)) == v * 10 + dig);
        }
        let grown = v.checked_mul(10);
        match grown {
            None => {
                proof {
                    lemma_digits_value_grows(d, i - start + 1, d.len() as int);
                    assert(d.take(d.len() as int) =~= d);
                    assert(v * 10 > u64::MAX);
                    assert(digits_value(d) >= v * 10 + dig);
                    assert(decimal_value(t@) > u64::MAX);
                }
                return None;
            },
            Some(m) => match m.checked_add(dig) {
                None => {
                    proof {
                        lemma_digits_value_grows(d, i - start + 1, d.len() as int);
                        assert(d.take(d.len() as int) =~= d);
                    }
                    return None;
                },
                Some(w) => {
                    v = w;
                },
            },
        }
        i = i + 1;
    }
    assert(d.take(d.len() as int) =~= d);
    Some(v)
}

} // verus!
