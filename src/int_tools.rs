use vstd::prelude::*;

verus! {

/// Whether `n` is a power of two: one, or an even number whose half is one.
pub open spec fn power_of_two(n: nat) -> bool
    decreases n,
{
    if n == 1 {
        true
    } else if n < 2 || n % 2 == 1 {
        false
    } else {
        power_of_two(n / 2)
    }
}

/// Whether `x` is a power of two, found by halving while it is even.
pub fn u64_is_power_of_2(x: u64) -> (r: bool)
    ensures
        r == power_of_two(x as nat),
{
    let mut n = x;
    while n >= 2 && n % 2 == 0
        invariant
            power_of_two(x as nat) == power_of_two(n as nat),
        decreases n,
    {
        n = n / 2;
    }
    n == 1
}

/// Integer helpers.
pub trait IntTools: Sized {
    /// The value as a natural number; negative values count as zero.
    spec fn nat_value(self) -> nat;

    fn is_power_of_2(self) -> (r: bool)
        ensures
            r == power_of_two(self.nat_value()),
    ;
}

impl IntTools for u8 {
    open spec fn nat_value(self) -> nat {
        self as nat
    }

    fn is_power_of_2(self) -> (r: bool) {
        u64_is_power_of_2(self as u64)
    }
}

impl IntTools for u16 {
    open spec fn nat_value(self) -> nat {
        self as nat
    }

    fn is_power_of_2(self) -> (r: bool) {
        u64_is_power_of_2(self as u64)
    }
}

impl IntTools for u32 {
    open spec fn nat_value(self) -> nat {
        self as nat
    }

    fn is_power_of_2(self) -> (r: bool) {
        u64_is_power_of_2(self as u64)
    }
}

impl IntTools for u64 {
    open spec fn nat_value(self) -> nat {
        self as nat
    }

    fn is_power_of_2(self) -> (r: bool) {
        u64_is_power_of_2(self)
    }
}

impl IntTools for i8 {
    /// Negative values count as zero, which is no power of two.
    open spec fn nat_value(self) -> nat {
        if self < 0 {
            0
        } else {
            self as nat
        }
    }

    fn is_power_of_2(self) -> (r: bool) {
        self > 0 && u64_is_power_of_2(self as u64)
    }
}

impl IntTools for i16 {
    /// Negative values count as zero, which is no power of two.
    open spec fn nat_value(self) -> nat {
        if self < 0 {
            0
        } else {
            self as nat
        }
    }

    fn is_power_of_2(self) -> (r: bool) {
        self > 0 && u64_is_power_of_2(self as u64)
    }
}

impl IntTools for i32 {
    /// Negative values count as zero, which is no power of two.
    open spec fn nat_value(self) -> nat {
        if self < 0 {
            0
        } else {
            self as nat
        }
    }

    fn is_power_of_2(self) -> (r: bool) {
        self > 0 && u64_is_power_of_2(self as u64)
    }
}

impl IntTools for i64 {
    /// Negative values count as zero, which is no power of two.
    open spec fn nat_value(self) -> nat {
        if self < 0 {
            0
        } else {
            self as nat
        }
    }

    fn is_power_of_2(self) -> (r: bool) {
        self > 0 && u64_is_power_of_2(self as u64)
    }
}

} // verus!
