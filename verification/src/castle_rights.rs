//! Castling rights: a set of four flags, one per color and side. Gameplay
//! only ever clears flags; the initial value comes only from parsing.

use vstd::prelude::*;

verus! {

#[derive(Debug, Copy, Clone, PartialEq, Eq, Hash, Structural)]
pub struct CastleRights {
    pub white_king_side: bool,
    pub white_queen_side: bool,
    pub black_king_side: bool,
    pub black_queen_side: bool,
}

impl CastleRights {
    /// `self` holds every right that `k` holds.
    pub open spec fn spec_has(self, k: CastleRights) -> bool {
        &&& k.white_king_side ==> self.white_king_side
        &&& k.white_queen_side ==> self.white_queen_side
        &&& k.black_king_side ==> self.black_king_side
        &&& k.black_queen_side ==> self.black_queen_side
    }

    /// The set with the rights of both operands.
    pub open spec fn spec_union(self, rhs: CastleRights) -> CastleRights {
        CastleRights {
            white_king_side: self.white_king_side || rhs.white_king_side,
            white_queen_side: self.white_queen_side || rhs.white_queen_side,
            black_king_side: self.black_king_side || rhs.black_king_side,
            black_queen_side: self.black_queen_side || rhs.black_queen_side,
        }
    }

    /// The set with the rights of `self` that are not in `revoked`.
    pub open spec fn spec_minus(self, revoked: CastleRights) -> CastleRights {
        CastleRights {
            white_king_side: self.white_king_side && !revoked.white_king_side,
            white_queen_side: self.white_queen_side && !revoked.white_queen_side,
            black_king_side: self.black_king_side && !revoked.black_king_side,
            black_queen_side: self.black_queen_side && !revoked.black_queen_side,
        }
    }

    pub open spec fn spec_empty() -> CastleRights {
        CastleRights {
            white_king_side: false,
            white_queen_side: false,
            black_king_side: false,
            black_queen_side: false,
        }
    }

    pub fn empty() -> (r: CastleRights)
        ensures
            r == Self::spec_empty(),
    {
        CastleRights {
            white_king_side: false,
            white_queen_side: false,
            black_king_side: false,
            black_queen_side: false,
        }
    }

    pub fn white_king_side() -> (r: CastleRights)
        ensures
            r == (CastleRights {
                white_king_side: true,
                ..Self::spec_empty()
            }),
    {
        CastleRights { white_king_side: true, ..Self::empty() }
    }

    pub fn white_queen_side() -> (r: CastleRights)
        ensures
            r == (CastleRights {
                white_queen_side: true,
                ..Self::spec_empty()
            }),
    {
        CastleRights { white_queen_side: true, ..Self::empty() }
    }

    pub fn black_king_side() -> (r: CastleRights)
        ensures
            r == (CastleRights {
                black_king_side: true,
                ..Self::spec_empty()
            }),
    {
        CastleRights { black_king_side: true, ..Self::empty() }
    }

    pub fn black_queen_side() -> (r: CastleRights)
        ensures
            r == (CastleRights {
                black_queen_side: true,
                ..Self::spec_empty()
            }),
    {
        CastleRights { black_queen_side: true, ..Self::empty() }
    }

    /// Removes every right in `revoked`; rights are only ever removed, never
    /// regained.
    pub fn revoke(&mut self, revoked: CastleRights)
        ensures
            *final(self) == old(self).spec_minus(revoked),
            old(self).spec_has(*final(self)),
    {
        self.white_king_side = self.white_king_side && !revoked.white_king_side;
        self.white_queen_side = self.white_queen_side && !revoked.white_queen_side;
        self.black_king_side = self.black_king_side && !revoked.black_king_side;
        self.black_queen_side = self.black_queen_side && !revoked.black_queen_side;
    }

    pub fn union(self, rhs: CastleRights) -> (r: CastleRights)
        ensures
            r == self.spec_union(rhs),
    {
        CastleRights {
            white_king_side: self.white_king_side || rhs.white_king_side,
            white_queen_side: self.white_queen_side || rhs.white_queen_side,
            black_king_side: self.black_king_side || rhs.black_king_side,
            black_queen_side: self.black_queen_side || rhs.black_queen_side,
        }
    }

    pub open spec fn spec_right_from_fen_char(c: char) -> Option<CastleRights> {
        if c == 'K' {
            Some(CastleRights { white_king_side: true, ..Self::spec_empty() })
        } else if c == 'Q' {
            Some(CastleRights { white_queen_side: true, ..Self::spec_empty() })
        } else if c == 'k' {
            Some(CastleRights { black_king_side: true, ..Self::spec_empty() })
        } else if c == 'q' {
            Some(CastleRights { black_queen_side: true, ..Self::spec_empty() })
        } else {
            None
        }
    }

    pub fn right_from_fen_char(c: char) -> (r: Option<CastleRights>)
        ensures
            r == Self::spec_right_from_fen_char(c),
    {
        match c {
            'K' => Some(Self::white_king_side()),
            'Q' => Some(Self::white_queen_side()),
            'k' => Some(Self::black_king_side()),
            'q' => Some(Self::black_queen_side()),
            _ => None,
        }
    }

    /// Folds the rights letters of `s` into `acc`, failing on the first
    /// letter outside `KQkq`.
    pub open spec fn spec_rights_fold(s: Seq<char>, acc: CastleRights) -> Result<
        CastleRights,
        InvalidCastleRight,
    >
        decreases s.len(),
    {
        if s.len() == 0 {
            Ok(acc)
        } else {
            match Self::spec_right_from_fen_char(s[0]) {
                None => Err(InvalidCastleRight(s[0])),
                Some(right) => Self::spec_rights_fold(s.drop_first(), acc.spec_union(right)),
            }
        }
    }

    /// What parsing a castling-rights field yields: `-` is the empty set,
    /// otherwise every letter must be one of `KQkq`.
    pub open spec fn spec_rights_from_str(s: Seq<char>) -> Result<
        CastleRights,
        InvalidCastleRight,
    > {
        if s =~= seq!['-'] {
            Ok(Self::spec_empty())
        } else {
            Self::spec_rights_fold(s, Self::spec_empty())
        }
    }

    pub fn rights_from_fen_str(s: &str) -> (r: Result<CastleRights, InvalidCastleRight>)
        ensures
            r == Self::spec_rights_from_str(s@),
    {
        let len = s.unicode_len();
        if len == 1 && s.get_char(0) == '-' {
            proof {
                assert(s@ =~= seq!['-']);
            }
            return Ok(Self::empty());
        }
        proof {
            assert(!(s@ =~= seq!['-']));
        }
        let mut total = Self::empty();
        let mut i: usize = 0;
        proof {
            assert(s@.skip(0) =~= s@);
        }
        while i < len
            invariant
                i <= len,
                len == s@.len(),
                !(s@ =~= seq!['-']),
                Self::spec_rights_fold(s@, Self::spec_empty()) == Self::spec_rights_fold(
                    s@.skip(i as int),
                    total,
                ),
            decreases len - i,
        {
            let c = s.get_char(i);
            let right = match Self::right_from_fen_char(c) {
                Some(right) => right,
                None => {
                    proof {
                        assert(s@.skip(i as int).len() > 0);
                        assert(s@.skip(i as int)[0] == c);
                        assert(Self::spec_rights_fold(s@.skip(i as int), total) == Err::<
                            CastleRights,
                            InvalidCastleRight,
                        >(InvalidCastleRight(c)));
                    }
                    return Err(InvalidCastleRight(c));
                },
            };
            proof {
                assert(s@.skip(i as int)[0] == c);
                assert(s@.skip(i as int).drop_first() =~= s@.skip(i as int + 1));
            }
            total = total.union(right);
            i = i + 1;
        }
        proof {
            assert(s@.skip(len as int) =~= Seq::<char>::empty());
        }
        Ok(total)
    }

    pub fn has_rights(&self, k: CastleRights) -> (r: bool)
        ensures
            r == self.spec_has(k),
    {
        (!k.white_king_side || self.white_king_side) && (!k.white_queen_side
            || self.white_queen_side) && (!k.black_king_side || self.black_king_side) && (
        !k.black_queen_side || self.black_queen_side)
    }
}

/// The letter that is not a castling right, as found in the rights field.
#[derive(Copy, Clone, PartialEq, Eq, Hash, Debug, Structural)]
pub struct InvalidCastleRight(pub char);

/// The castling-rights field describing `r`: any held rights in `KQkq`
/// order, or `-` for none.
pub open spec fn spec_rights_fen(r: CastleRights) -> Seq<char> {
    if !r.white_king_side && !r.white_queen_side && !r.black_king_side && !r.black_queen_side {
        seq!['-']
    } else {
        (if r.white_king_side {
            seq!['K']
        } else {
            Seq::<char>::empty()
        }) + (if r.white_queen_side {
            seq!['Q']
        } else {
            Seq::<char>::empty()
        }) + (if r.black_king_side {
            seq!['k']
        } else {
            Seq::<char>::empty()
        }) + (if r.black_queen_side {
            seq!['q']
        } else {
            Seq::<char>::empty()
        })
    }
}

/// Every character of a rights field is a rights letter or `-`.
pub proof fn lemma_rights_fen_chars(r: CastleRights)
    ensures
        forall|k: int|
            0 <= k < spec_rights_fen(r).len() ==> (#[trigger] spec_rights_fen(r)[k] == 'K'
                || spec_rights_fen(r)[k] == 'Q' || spec_rights_fen(r)[k] == 'k' || spec_rights_fen(
                r,
            )[k] == 'q' || spec_rights_fen(r)[k] == '-'),
{
    let s = spec_rights_fen(r);
    let none = !r.white_king_side && !r.white_queen_side && !r.black_king_side
        && !r.black_queen_side;
    if !none {
        let a = if r.white_king_side {
            seq!['K']
        } else {
            Seq::<char>::empty()
        };
        let b = if r.white_queen_side {
            seq!['Q']
        } else {
            Seq::<char>::empty()
        };
        let c = if r.black_king_side {
            seq!['k']
        } else {
            Seq::<char>::empty()
        };
        let d = if r.black_queen_side {
            seq!['q']
        } else {
            Seq::<char>::empty()
        };
        assert forall|k: int| 0 <= k < s.len() implies (s[k] == 'K' || s[k] == 'Q' || s[k] == 'k'
            || s[k] == 'q' || s[k] == '-') by {
            if k < a.len() {
                assert(s[k] == 'K');
            } else if k < a.len() + b.len() {
                assert(s[k] == 'Q');
            } else if k < a.len() + b.len() + c.len() {
                assert(s[k] == 'k');
            } else {
                assert(s[k] == 'q');
            }
        }
    }
}

/// Folding rights letters distributes over concatenation.
pub proof fn lemma_rights_fold_concat(s1: Seq<char>, s2: Seq<char>, acc: CastleRights)
    ensures
        CastleRights::spec_rights_fold(s1 + s2, acc) == (match CastleRights::spec_rights_fold(
            s1,
            acc,
        ) {
            Ok(a) => CastleRights::spec_rights_fold(s2, a),
            Err(e) => Err(e),
        }),
    decreases s1.len(),
{
    if s1.len() == 0 {
        assert(s1 + s2 =~= s2);
    } else {
        assert((s1 + s2)[0] == s1[0]);
        assert((s1 + s2).drop_first() =~= s1.drop_first() + s2);
        match CastleRights::spec_right_from_fen_char(s1[0]) {
            None => {},
            Some(right) => {
                lemma_rights_fold_concat(s1.drop_first(), s2, acc.spec_union(right));
            },
        }
    }
}

/// Folding a single valid rights letter adds that right.
pub proof fn lemma_rights_fold_single(c: char, acc: CastleRights)
    requires
        CastleRights::spec_right_from_fen_char(c) is Some,
    ensures
        CastleRights::spec_rights_fold(seq![c], acc) == Ok::<CastleRights, InvalidCastleRight>(
            acc.spec_union(CastleRights::spec_right_from_fen_char(c)->0),
        ),
{
    let right = CastleRights::spec_right_from_fen_char(c)->0;
    let rest = seq![c].drop_first();
    assert(seq![c][0] == c);
    assert(rest =~= Seq::<char>::empty());
    assert(rest.len() == 0);
    assert(CastleRights::spec_rights_fold(rest, acc.spec_union(right)) == Ok::<
        CastleRights,
        InvalidCastleRight,
    >(acc.spec_union(right)));
}

/// Serializing castling rights and parsing the text back yields the same
/// rights: the rights field round-trips.
pub proof fn lemma_rights_round_trip(r: CastleRights)
    ensures
        CastleRights::spec_rights_from_str(spec_rights_fen(r)) == Ok::<
            CastleRights,
            InvalidCastleRight,
        >(r),
{
    let s = spec_rights_fen(r);
    let none = !r.white_king_side && !r.white_queen_side && !r.black_king_side
        && !r.black_queen_side;
    if none {
        assert(s =~= seq!['-']);
    } else {
        let a = if r.white_king_side {
            seq!['K']
        } else {
            Seq::<char>::empty()
        };
        let b = if r.white_queen_side {
            seq!['Q']
        } else {
            Seq::<char>::empty()
        };
        let c = if r.black_king_side {
            seq!['k']
        } else {
            Seq::<char>::empty()
        };
        let d = if r.black_queen_side {
            seq!['q']
        } else {
            Seq::<char>::empty()
        };
        assert(s == a + b + c + d);
        assert(s.len() >= 1);
        assert(s[0] == 'K' || s[0] == 'Q' || s[0] == 'k' || s[0] == 'q');
        assert(!(s =~= seq!['-']));
        let e0 = CastleRights::spec_empty();
        let acc1 = if r.white_king_side {
            e0.spec_union(CastleRights { white_king_side: true, ..CastleRights::spec_empty() })
        } else {
            e0
        };
        let acc2 = if r.white_queen_side {
            acc1.spec_union(CastleRights { white_queen_side: true, ..CastleRights::spec_empty() })
        } else {
            acc1
        };
        let acc3 = if r.black_king_side {
            acc2.spec_union(CastleRights { black_king_side: true, ..CastleRights::spec_empty() })
        } else {
            acc2
        };
        let acc4 = if r.black_queen_side {
            acc3.spec_union(CastleRights { black_queen_side: true, ..CastleRights::spec_empty() })
        } else {
            acc3
        };
        if r.white_king_side {
            lemma_rights_fold_single('K', e0);
        } else {
            assert(CastleRights::spec_rights_fold(a, e0) == Ok::<
                CastleRights,
                InvalidCastleRight,
            >(acc1));
        }
        if r.white_queen_side {
            lemma_rights_fold_single('Q', acc1);
        } else {
            assert(CastleRights::spec_rights_fold(b, acc1) == Ok::<
                CastleRights,
                InvalidCastleRight,
            >(acc2));
        }
        if r.black_king_side {
            lemma_rights_fold_single('k', acc2);
        } else {
            assert(CastleRights::spec_rights_fold(c, acc2) == Ok::<
                CastleRights,
                InvalidCastleRight,
            >(acc3));
        }
        if r.black_queen_side {
            lemma_rights_fold_single('q', acc3);
        } else {
            assert(CastleRights::spec_rights_fold(d, acc3) == Ok::<
                CastleRights,
                InvalidCastleRight,
            >(acc4));
        }
        lemma_rights_fold_concat(a, b + c + d, e0);
        lemma_rights_fold_concat(b, c + d, acc1);
        lemma_rights_fold_concat(c, d, acc2);
        assert(a + b + c + d =~= a + (b + (c + d)));
        assert(b + c + d =~= b + (c + d));
        assert(CastleRights::spec_rights_fold(s, e0) == Ok::<CastleRights, InvalidCastleRight>(
            acc4,
        ));
        assert(acc4 == r);
    }
}

} // verus!
