use vstd::prelude::*;

verus! {

// A configuration option arrives as text and is decoded into the value
// kind the caller asks for.  Each kind fails closed: text that does not
// decode yields absence, exactly as an unconfigured name does, so there is
// never a distinct error surface for "configured but malformed".

/// `b` is a decimal digit.
pub open spec fn is_digit(b: u8) -> bool {
    48 <= b <= 57
}

/// Every byte of `s` is a decimal digit.
pub open spec fn all_digits(s: Seq<u8>) -> bool {
    forall|i: int| 0 <= i < s.len() ==> is_digit(#[trigger] s[i])
}

/// The number that the digit string `s` denotes in decimal.
pub open spec fn dec_val(s: Seq<u8>) -> int
    decreases s.len(),
{
    if s.len() == 0 {
        0
    } else {
        dec_val(s.drop_last()) * 10 + (s.last() - 48)
    }
}

/// A digit string denotes a non-negative number.
pub proof fn lemma_dec_val_nonneg(s: Seq<u8>)
    requires
        all_digits(s),
    ensures
        dec_val(s) >= 0,
    decreases s.len(),
{
    if s.len() > 0 {
        assert(all_digits(s.drop_last()));
        lemma_dec_val_nonneg(s.drop_last());
        assert(dec_val(s.drop_last()) * 10 >= 0) by (nonlinear_arith)
            requires
                dec_val(s.drop_last()) >= 0,
        ;
    }
}

/// Extending a digit string cannot shrink the number it denotes.
pub proof fn lemma_dec_val_prefix_le(s: Seq<u8>, i: int)
    requires
        all_digits(s),
        0 <= i <= s.len(),
    ensures
        dec_val(s.subrange(0, i)) <= dec_val(s),
    decreases s.len() - i,
{
    if i < s.len() {
        lemma_dec_val_prefix_le(s, i + 1);
        let p = s.subrange(0, i);
        let q = s.subrange(0, i + 1);
        assert(q.drop_last() =~= p);
        assert(all_digits(p));
        lemma_dec_val_nonneg(p);
        assert(dec_val(q) == dec_val(p) * 10 + (q.last() - 48));
        assert(dec_val(p) * 10 >= dec_val(p)) by (nonlinear_arith)
            requires
                dec_val(p) >= 0,
        ;
    } else {
        assert(s.subrange(0, i) =~= s);
    }
}

/// A value kind that a configuration option can decode into.
pub trait OptionValue: Sized {
    /// The value that the text `s` denotes, if any.
    spec fn decode_spec(s: Seq<u8>) -> Option<Self>;

    /// Decode `s`; text that denotes no value yields absence.
    fn decode(s: &Vec<u8>) -> (r: Option<Self>)
        ensures
            r == Self::decode_spec(s@),
    ;
}

impl OptionValue for u64 {
    /// A non-empty all-digit string within range denotes its number.
    open spec fn decode_spec(s: Seq<u8>) -> Option<u64> {
        if s.len() > 0 && all_digits(s) && dec_val(s) <= u64::MAX {
            Some(dec_val(s) as u64)
        } else {
            None
        }
    }

    fn decode(s: &Vec<u8>) -> (r: Option<u64>) {
        let n = s.len();
        if n == 0 {
            return None;
        }
        let mut acc: u64 = 0;
        let mut i: usize = 0;
        while i < n
            invariant
                n == s@.len(),
                i <= n,
                all_digits(s@.subrange(0, i as int)),
                acc == dec_val(s@.subrange(0, i as int)),
            decreases n - i,
        {
            let b = s[i];
            if b < 48 || b > 57 {
                assert(!all_digits(s@));
                return None;
            }
            let d = (b - 48) as u64;
            let ghost p = s@.subrange(0, i as int);
            let ghost q = s@.subrange(0, i as int + 1);
            assert(q.drop_last() =~= p);
            assert(dec_val(q) == acc * 10 + d);
            if acc > (u64::MAX - d) / 10 {
                proof {
                    assert(acc * 10 + d > u64::MAX) by (nonlinear_arith)
                        requires
                            acc > (u64::MAX - d) / 10,
                            0 <= d < 10,
                            acc >= 0,
                    ;
                    if all_digits(s@) && dec_val(s@) <= u64::MAX {
                        lemma_dec_val_prefix_le(s@, i as int + 1);
                    }
                }
                return None;
            }
            assert(acc * 10 + d <= u64::MAX) by (nonlinear_arith)
                requires
                    acc <= (u64::MAX - d) / 10,
                    0 <= d < 10,
                    acc >= 0,
            ;
            acc = acc * 10 + d;
            i = i + 1;
        }
        assert(s@.subrange(0, n as int) =~= s@);
        Some(acc)
    }
}

impl OptionValue for i64 {
    /// An optional leading minus sign followed by digits, within range.
    open spec fn decode_spec(s: Seq<u8>) -> Option<i64> {
        if s.len() > 0 && s[0] == 45 {
            let t = s.subrange(1, s.len() as int);
            if t.len() > 0 && all_digits(t) && dec_val(t) <= 0x8000000000000000 {
                Some((-dec_val(t)) as i64)
            } else {
                None
            }
        } else if s.len() > 0 && all_digits(s) && dec_val(s) <= i64::MAX {
            Some(dec_val(s) as i64)
        } else {
            None
        }
    }

    fn decode(s: &Vec<u8>) -> (r: Option<i64>) {
        let n = s.len();
        if n > 0 && s[0] == 45 {
            let mut tail: Vec<u8> = Vec::new();
            let mut i: usize = 1;
            while i < n
                invariant
                    1 <= i <= n,
                    n == s@.len(),
                    tail@ == s@.subrange(1, i as int),
                decreases n - i,
            {
                tail.push(s[i]);
                assert(tail@ =~= s@.subrange(1, i as int + 1));
                i = i + 1;
            }
            assert(tail@ =~= s@.subrange(1, n as int));
            proof {
                if all_digits(tail@) {
                    lemma_dec_val_nonneg(tail@);
                }
            }
            match u64::decode(&tail) {
                Some(v) => {
                    if v < 9223372036854775808u64 {
                        Some(-(v as i64))
                    } else if v == 9223372036854775808u64 {
                        Some(i64::MIN)
                    } else {
                        None
                    }
                },
                None => None,
            }
        } else {
            proof {
                if all_digits(s@) {
                    lemma_dec_val_nonneg(s@);
                }
            }
            match u64::decode(s) {
                Some(v) => {
                    if v <= 9223372036854775807u64 {
                        Some(v as i64)
                    } else {
                        None
                    }
                },
                None => None,
            }
        }
    }
}

impl OptionValue for bool {
    /// Only the exact texts `true` and `false` denote a flag.
    open spec fn decode_spec(s: Seq<u8>) -> Option<bool> {
        if s =~= seq![116u8, 114u8, 117u8, 101u8] {
            Some(true)
        } else if s =~= seq![102u8, 97u8, 108u8, 115u8, 101u8] {
            Some(false)
        } else {
            None
        }
    }

    fn decode(s: &Vec<u8>) -> (r: Option<bool>) {
        if s.len() == 4 && s[0] == 116 && s[1] == 114 && s[2] == 117 && s[3] == 101 {
            assert(s@ =~= seq![116u8, 114u8, 117u8, 101u8]);
            Some(true)
        } else if s.len() == 5 && s[0] == 102 && s[1] == 97 && s[2] == 108 && s[3] == 115 && s[4]
            == 101 {
            assert(s@ =~= seq![102u8, 97u8, 108u8, 115u8, 101u8]);
            Some(false)
        } else {
            assert(!(s@ =~= seq![116u8, 114u8, 117u8, 101u8]));
            assert(!(s@ =~= seq![102u8, 97u8, 108u8, 115u8, 101u8]));
            None
        }
    }
}

} // verus!
