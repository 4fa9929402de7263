//! The two sides of an order book.
use vstd::prelude::*;

verus! {

/// An order book side.
#[derive(Debug, Copy, Clone, PartialEq, Eq, Structural)]
pub enum Side {
    Buy,
    Sell,
}

/// The side opposite to `s`.
pub open spec fn opposite(s: Side) -> Side {
    match s {
        Side::Buy => Side::Sell,
        Side::Sell => Side::Buy,
    }
}

impl vstd::std_specs::ops::NotSpecImpl for Side {
    open spec fn obeys_not_spec() -> bool {
        true
    }

    open spec fn not_req(self) -> bool {
        true
    }

    open spec fn not_spec(self) -> Side {
        opposite(self)
    }
}

impl core::ops::Not for Side {
    type Output = Side;

    /// The opposite side: buying is the negation of selling and the other way round.
    fn not(self) -> (r: Side) {
        match self {
            Side::Buy => Side::Sell,
            Side::Sell => Side::Buy,
        }
    }
}

/// The label of a side: `BUY` or `SELL`.
pub open spec fn side_label(s: Side) -> Seq<char> {
    match s {
        Side::Buy => seq!['B', 'U', 'Y'],
        Side::Sell => seq!['S', 'E', 'L', 'L'],
    }
}

impl Side {
    /// The label of the side: `BUY` or `SELL`.
    pub fn to_string(&self) -> (r: String)
        ensures
            r@ == side_label(*self),
    {
        match self {
            Side::Buy => {
                proof {
                    reveal_strlit("BUY");
                }
                "BUY".to_owned()
            },
            Side::Sell => {
                proof {
                    reveal_strlit("SELL");
                }
                "SELL".to_owned()
            },
        }
    }
}

/// Negating a side twice gives the side back.
pub proof fn law_negation_is_involution(s: Side)
    ensures
        opposite(opposite(s)) == s,
        opposite(s) != s,
{
}

} // verus!
