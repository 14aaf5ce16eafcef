//! Byte-size constraints and their intersection.

use crate::text::{decimal, push_decimal};
use std::ops::Range;
use vstd::prelude::*;
use vstd::string::*;

verus! {

/// How many bytes a value or a type occupies.
#[derive(Debug, PartialEq, Eq)]
pub enum ByteSize {
    /// Exactly this many bytes.
    Exact(usize),
    /// Any number of bytes in the half-open range.
    Range(Range<usize>),
    /// No constraint at all.
    AnySize,
}

impl Clone for ByteSize {
    fn clone(&self) -> (res: Self)
        ensures
            res == *self,
    {
        match self {
            ByteSize::Exact(size) => ByteSize::Exact(*size),
            ByteSize::Range(r) => ByteSize::Range(r.start..r.end),
            ByteSize::AnySize => ByteSize::AnySize,
        }
    }
}

impl ByteSize {
    /// Whether a value of `n` bytes satisfies the constraint.
    pub open spec fn admits(self, n: int) -> bool {
        match self {
            ByteSize::Exact(size) => n == size,
            ByteSize::Range(r) => r.start <= n < r.end,
            ByteSize::AnySize => n >= 0,
        }
    }

    /// Whether no byte count at all satisfies the constraint.
    pub open spec fn is_empty(self) -> bool {
        self matches ByteSize::Range(r) && r.start >= r.end
    }

    /// The tightest constraint that satisfies both, if any byte count does.
    pub open spec fn spec_overlap(self, other: ByteSize) -> Option<ByteSize> {
        match (self, other) {
            (ByteSize::AnySize, _) => if other.is_empty() {
                None
            } else {
                Some(other)
            },
            (_, ByteSize::AnySize) => if self.is_empty() {
                None
            } else {
                Some(self)
            },
            (ByteSize::Exact(a), _) => if other.admits(a as int) {
                Some(self)
            } else {
                None
            },
            (_, ByteSize::Exact(b)) => if self.admits(b as int) {
                Some(other)
            } else {
                None
            },
            (ByteSize::Range(r), ByteSize::Range(s)) => {
                let start = if r.start >= s.start {
                    r.start
                } else {
                    s.start
                };
                let end = if r.end <= s.end {
                    r.end
                } else {
                    s.end
                };
                if start < end {
                    Some(ByteSize::Range(start..end))
                } else {
                    None
                }
            },
        }
    }

    /// The fewest bytes that satisfy a constraint that something satisfies.
    pub open spec fn least(self) -> usize {
        match self {
            ByteSize::Exact(size) => size,
            ByteSize::Range(r) => r.start,
            ByteSize::AnySize => 0,
        }
    }

    /// The text of the constraint: `4b`, `(1..8)b` or `AnySize`.
    pub open spec fn text(self) -> Seq<char> {
        match self {
            ByteSize::Exact(size) => decimal(size as nat) + "b"@,
            ByteSize::Range(r) => "("@ + decimal(r.start as nat) + ".."@ + decimal(r.end as nat)
                + ")b"@,
            ByteSize::AnySize => "AnySize"@,
        }
    }

    /// Whether the constraint admits no byte count.
    pub fn admits_nothing(&self) -> (res: bool)
        ensures
            res == self.is_empty(),
            res <==> forall|n: int| !self.admits(n),
    {
        match self {
            ByteSize::Exact(size) => {
                assert(self.admits(*size as int));
                false
            },
            ByteSize::Range(r) => {
                if r.start >= r.end {
                    true
                } else {
                    assert(self.admits(r.start as int));
                    false
                }
            },
            ByteSize::AnySize => {
                assert(self.admits(0));
                false
            },
        }
    }

    /// The fewest bytes that satisfy the constraint.
    pub fn smallest(&self) -> (res: usize)
        ensures
            res == self.least(),
            !self.is_empty() ==> self.admits(res as int) && forall|n: int|
                self.admits(n) ==> res <= n,
    {
        match self {
            ByteSize::Exact(size) => *size,
            ByteSize::Range(r) => r.start,
            ByteSize::AnySize => 0,
        }
    }

    /// Whether `n` bytes satisfy the constraint.
    pub fn contains(&self, n: usize) -> (res: bool)
        ensures
            res == self.admits(n as int),
    {
        match self {
            ByteSize::Exact(size) => *size == n,
            ByteSize::Range(r) => r.start <= n && n < r.end,
            ByteSize::AnySize => true,
        }
    }

    /// Structural equality of two constraints.
    pub fn same(&self, other: &ByteSize) -> (res: bool)
        ensures
            res == (*self == *other),
    {
        match (self, other) {
            (ByteSize::Exact(a), ByteSize::Exact(b)) => *a == *b,
            (ByteSize::Range(r), ByteSize::Range(s)) => r.start == s.start && r.end == s.end,
            (ByteSize::AnySize, ByteSize::AnySize) => true,
            _ => false,
        }
    }

    /// Intersects two constraints.
    ///
    /// The result is `None` exactly when no byte count satisfies both; otherwise it admits
    /// exactly the byte counts that both admit, as an `Exact` where either side is one.
    pub fn overlap(&self, other: &ByteSize) -> (res: Option<ByteSize>)
        ensures
            res == self.spec_overlap(*other),
            res is None <==> forall|n: int| !(self.admits(n) && other.admits(n)),
            res matches Some(both) ==> forall|n: int|
                both.admits(n) <==> self.admits(n) && other.admits(n),
    {
        proof {
            lemma_overlap_is_intersection(*self, *other);
        }
        match self {
            ByteSize::AnySize => if other.admits_nothing() {
                None
            } else {
                Some(other.clone())
            },
            ByteSize::Exact(a) => match other {
                ByteSize::AnySize => Some(ByteSize::Exact(*a)),
                _ => if other.contains(*a) {
                    Some(ByteSize::Exact(*a))
                } else {
                    None
                },
            },
            ByteSize::Range(r) => match other {
                ByteSize::AnySize => if r.start < r.end {
                    Some(ByteSize::Range(r.start..r.end))
                } else {
                    None
                },
                ByteSize::Exact(b) => if r.start <= *b && *b < r.end {
                    Some(ByteSize::Exact(*b))
                } else {
                    None
                },
                ByteSize::Range(s) => {
                    let start: usize = if r.start >= s.start {
                        r.start
                    } else {
                        s.start
                    };
                    let end: usize = if r.end <= s.end {
                        r.end
                    } else {
                        s.end
                    };
                    if start < end {
                        Some(ByteSize::Range(start..end))
                    } else {
                        None
                    }
                },
            },
        }
    }

    /// Appends the text of the constraint.
    pub fn push_text(&self, out: &mut String)
        ensures
            final(out)@ == old(out)@ + self.text(),
    {
        match self {
            ByteSize::Exact(size) => {
                push_decimal(out, *size as u64);
                out.append("b");
                assert(out@ =~= old(out)@ + self.text());
            },
            ByteSize::Range(r) => {
                out.append("(");
                push_decimal(out, r.start as u64);
                out.append("..");
                push_decimal(out, r.end as u64);
                out.append(")b");
                assert(out@ =~= old(out)@ + self.text());
            },
            ByteSize::AnySize => {
                out.append("AnySize");
            },
        }
    }

    /// The text of the constraint: `4b`, `(1..8)b` or `AnySize`.
    pub fn to_text(&self) -> (res: String)
        ensures
            res@ == self.text(),
    {
        let mut out = String::new();
        self.push_text(&mut out);
        assert(out@ =~= self.text());
        out
    }
}

/// The intersection admits exactly what both sides admit, and is absent exactly when
/// nothing satisfies both.
pub proof fn lemma_overlap_is_intersection(a: ByteSize, b: ByteSize)
    ensures
        a.spec_overlap(b) is None <==> forall|n: int| !(a.admits(n) && b.admits(n)),
        a.spec_overlap(b) matches Some(both) ==> forall|n: int|
            both.admits(n) <==> a.admits(n) && b.admits(n),
{
    match a.spec_overlap(b) {
        Some(both) => {
            let witness: int = match both {
                ByteSize::Exact(size) => size as int,
                ByteSize::Range(r) => r.start as int,
                ByteSize::AnySize => 0,
            };
            assert(a.admits(witness) && b.admits(witness));
        },
        None => {},
    }
}

/// Intersection does not depend on the order of its operands.
pub proof fn lemma_overlap_commutative(a: ByteSize, b: ByteSize)
    ensures
        a.spec_overlap(b) == b.spec_overlap(a),
{
}

} // verus!
