//! What a concatenated group needs from an external module, and the runtime
//! interop helpers that follow from it.
use vstd::prelude::*;
use crate::text::owned;

verus! {

/// The ways a module depends on an external one, as bits.
#[derive(Clone, Copy)]
pub struct EsmDependantFlags {
    pub bits: u16,
}

/// The runtime interop helpers a group needs, as bits.
#[derive(Clone, Copy)]
pub struct RuntimeFlags {
    pub bits: u16,
}

impl EsmDependantFlags {
    /// `import x from ...`
    pub open spec fn spec_default() -> u16 { 1 }
    /// `import { x } from ...`
    pub open spec fn spec_named() -> u16 { 4 }
    /// `export * from ...`
    pub open spec fn spec_export_all() -> u16 { 8 }
    /// `import * as x from ...` or `export * as x from ...`
    pub open spec fn spec_namespace() -> u16 { 16 }

    pub fn empty() -> (r: Self)
        ensures
            r.bits == 0,
    {
        EsmDependantFlags { bits: 0 }
    }

    pub fn default_import() -> (r: Self)
        ensures
            r.bits == Self::spec_default(),
    {
        EsmDependantFlags { bits: 1 }
    }

    pub fn named() -> (r: Self)
        ensures
            r.bits == Self::spec_named(),
    {
        EsmDependantFlags { bits: 4 }
    }

    pub fn export_all() -> (r: Self)
        ensures
            r.bits == Self::spec_export_all(),
    {
        EsmDependantFlags { bits: 8 }
    }

    pub fn namespace() -> (r: Self)
        ensures
            r.bits == Self::spec_namespace(),
    {
        EsmDependantFlags { bits: 16 }
    }

    /// Every bit of `other` is set.
    pub fn contains(&self, other: EsmDependantFlags) -> (r: bool)
        ensures
            r == (self.bits & other.bits == other.bits),
    {
        self.bits & other.bits == other.bits
    }

    /// Sets the bits of `other`.
    pub fn insert(&mut self, other: EsmDependantFlags)
        ensures
            final(self).bits == old(self).bits | other.bits,
    {
        self.bits = self.bits | other.bits;
    }
}

/// Whether bit `b` is set in `x`.
/// The helper bits for dependency bits `v`, as `RuntimeFlags::from` computes them.
pub open spec fn esm_runtime_bits(v: u16) -> u16 {
    let a: u16 = if v & 1 == 1 { 1 } else { 0 };
    let b: u16 = if v & 16 == 16 || v & 5 == 5 { (a & !1u16) | 4 } else { a };
    if v & 8 == 8 { b | 8 } else { b }
}

pub open spec fn has_bit(x: u16, b: u16) -> bool {
    x & b == b
}

/// The name of the helper for the single flag `b`.
pub open spec fn helper_name(b: u16) -> Seq<char> {
    if b == 1 {
        "_interop_require_default"@
    } else if b == 4 {
        "_interop_require_wildcard"@
    } else {
        "_export_star"@
    }
}

/// The module the helper for the single flag `b` is required from.
pub open spec fn helper_module(b: u16) -> Seq<char> {
    if b == 1 {
        "@swc/helpers/_/_interop_require_default"@
    } else if b == 4 {
        "@swc/helpers/_/_interop_require_wildcard"@
    } else {
        "@swc/helpers/_/_export_star"@
    }
}

/// The single helper flags set in `bits`, in bit order.
pub open spec fn ops_of(bits: u16) -> Seq<u16> {
    (if has_bit(bits, 1) { seq![1u16] } else { seq![] })
        + (if has_bit(bits, 4) { seq![4u16] } else { seq![] })
        + (if has_bit(bits, 8) { seq![8u16] } else { seq![] })
}

/// The bits of each of the flags.
pub open spec fn flag_bits(s: Seq<RuntimeFlags>) -> Seq<u16> {
    s.map_values(|f: RuntimeFlags| f.bits)
}

impl RuntimeFlags {

    pub fn empty() -> (r: Self)
        ensures
            r.bits == 0,
    {
        RuntimeFlags { bits: 0 }
    }

    /// The `_interop_require_default` helper.
    pub fn default_interop() -> (r: Self)
        ensures
            r.bits == 1,
    {
        RuntimeFlags { bits: 1 }
    }

    /// The `_interop_require_wildcard` helper.
    pub fn wildcard_interop() -> (r: Self)
        ensures
            r.bits == 4,
    {
        RuntimeFlags { bits: 4 }
    }

    /// The `_export_star` helper.
    pub fn export_star_interop() -> (r: Self)
        ensures
            r.bits == 8,
    {
        RuntimeFlags { bits: 8 }
    }

    /// The helpers needed for an external used in the ways `value`: the
    /// default interop for a default import alone, the wildcard interop for a
    /// namespace or for a default import with named ones, and the star export
    /// helper for `export *`.
    pub fn from(value: &EsmDependantFlags) -> (r: RuntimeFlags)
        ensures
            r.bits == esm_runtime_bits(value.bits),
            has_bit(r.bits, 1) == (has_bit(value.bits, 1) && !(has_bit(value.bits, 16) || has_bit(value.bits, 5))),
            has_bit(r.bits, 4) == (has_bit(value.bits, 16) || has_bit(value.bits, 5)),
            has_bit(r.bits, 8) == has_bit(value.bits, 8),
            !(has_bit(r.bits, 1) && has_bit(r.bits, 4)),
            r.bits & !13u16 == 0,
    {
        let v = value.bits;
        let a: u16 = if v & 1 == 1 { 1 } else { 0 };
        let b: u16 = if v & 16 == 16 || v & 5 == 5 { (a & !1u16) | 4 } else { a };
        let rt: u16 = if v & 8 == 8 { b | 8 } else { b };
        assert(
            (rt & 1 == 1) == (v & 1 == 1 && !(v & 16 == 16 || v & 5 == 5))
            && (rt & 4 == 4) == (v & 16 == 16 || v & 5 == 5)
            && (rt & 8 == 8) == (v & 8 == 8)
            && rt & !13u16 == 0
        ) by (bit_vector)
            requires
                a == (if v & 1 == 1 { 1u16 } else { 0u16 }),
                b == (if v & 16 == 16 || v & 5 == 5 { (a & !1u16) | 4 } else { a }),
                rt == (if v & 8 == 8 { b | 8 } else { b }),
        ;
        RuntimeFlags { bits: rt }
    }

    /// Every bit of `other` is set.
    pub fn contains(&self, other: RuntimeFlags) -> (r: bool)
        ensures
            r == has_bit(self.bits, other.bits),
    {
        self.bits & other.bits == other.bits
    }

    /// Adds the helpers of `other`.
    pub fn union_with(&mut self, other: RuntimeFlags)
        ensures
            final(self).bits == old(self).bits | other.bits,
    {
        self.bits = self.bits | other.bits;
    }

    /// An interop call is needed: the default or the wildcard helper.
    pub fn need_op(&self) -> (r: bool)
        ensures
            r == (has_bit(self.bits, 1) || has_bit(self.bits, 4)),
    {
        self.bits & 1 == 1 || self.bits & 4 == 4
    }

    /// The name of the single helper these flags stand for.
    pub fn op_ident(&self) -> (r: String)
        requires
            self.bits == 1 || self.bits == 4 || self.bits == 8,
        ensures
            r@ == helper_name(self.bits),
            self.bits == 1 ==> r@ == "_interop_require_default"@,
            self.bits == 4 ==> r@ == "_interop_require_wildcard"@,
            self.bits == 8 ==> r@ == "_export_star"@,
    {
        if self.bits == 1 {
            owned("_interop_require_default")
        } else if self.bits == 4 {
            owned("_interop_require_wildcard")
        } else {
            owned("_export_star")
        }
    }

    /// The module a helper is required from.
    pub fn helper_source(&self) -> (r: String)
        requires
            self.bits == 1 || self.bits == 4 || self.bits == 8,
        ensures
            r@ == helper_module(self.bits),
    {
        if self.bits == 1 {
            owned("@swc/helpers/_/_interop_require_default")
        } else if self.bits == 4 {
            owned("@swc/helpers/_/_interop_require_wildcard")
        } else {
            owned("@swc/helpers/_/_export_star")
        }
    }

    /// The single helpers set in these flags, in bit order.
    pub fn iter_ops(&self) -> (r: Vec<RuntimeFlags>)
        ensures
            flag_bits(r@) == ops_of(self.bits),
            forall|i: int| 0 <= i < r@.len() ==> (#[trigger] r@[i]).bits == 1 || r@[i].bits == 4 || r@[i].bits == 8,
            forall|i: int| 0 <= i < r@.len() ==> has_bit(self.bits, #[trigger] r@[i].bits),
            forall|i: int, j: int| 0 <= i < j < r@.len() ==> r@[i].bits < r@[j].bits,
            has_bit(self.bits, 1) ==> exists|i: int| 0 <= i < r@.len() && #[trigger] r@[i].bits == 1,
            has_bit(self.bits, 4) ==> exists|i: int| 0 <= i < r@.len() && #[trigger] r@[i].bits == 4,
            has_bit(self.bits, 8) ==> exists|i: int| 0 <= i < r@.len() && #[trigger] r@[i].bits == 8,
    {
        let mut r = Vec::new();
        if self.bits & 1 == 1 {
            r.push(RuntimeFlags { bits: 1 });
        }
        if self.bits & 4 == 4 {
            r.push(RuntimeFlags { bits: 4 });
        }
        if self.bits & 8 == 8 {
            r.push(RuntimeFlags { bits: 8 });
        }
        proof {
            assert(flag_bits(r@) =~= ops_of(self.bits));
            if has_bit(self.bits, 1) { assert(r@[0].bits == 1); }
            if has_bit(self.bits, 4) {
                if has_bit(self.bits, 1) { assert(r@[1].bits == 4); } else { assert(r@[0].bits == 4); }
            }
            if has_bit(self.bits, 8) { assert(r@[r@.len() - 1].bits == 8); }
        }
        r
    }
}

/// A namespace use of an external always needs the wildcard helper and never
/// the default one.
pub proof fn law_namespace_needs_wildcard(v: u16, r: u16)
    requires
        has_bit(v, 16),
        has_bit(r, 1) == (has_bit(v, 1) && !(has_bit(v, 16) || has_bit(v, 5))),
        has_bit(r, 4) == (has_bit(v, 16) || has_bit(v, 5)),
    ensures
        has_bit(r, 4),
        !has_bit(r, 1),
{
}

} // verus!
