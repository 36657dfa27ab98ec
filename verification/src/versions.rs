//! The Lua versions a parse is made for, handled as a bitfield so that as many languages as
//! possible can be parsed at once.
use vstd::prelude::*;

verus! {

/// The bit of Luau.
const VERSION_LUAU: u8 = 1;

/// The bit of Lua 5.2.
const VERSION_LUA52: u8 = 2;

/// The bit of Lua 5.3.
const VERSION_LUA53: u8 = 4;

/// A set of Lua versions. Lua 5.1 is always in it; Lua 5.3 brings Lua 5.2 with it.
#[derive(Clone, Copy, PartialEq, Eq, Hash, Debug, Structural)]
pub struct LuaVersion {
    bitfield: u8,
}

impl View for LuaVersion {
    /// Whether Luau, Lua 5.2 and Lua 5.3 are in the set.
    type V = (bool, bool, bool);

    closed spec fn view(&self) -> (bool, bool, bool) {
        (
            self.bitfield & VERSION_LUAU != 0,
            self.bitfield & VERSION_LUA52 != 0,
            self.bitfield & VERSION_LUA53 != 0,
        )
    }
}

impl LuaVersion {
    /// A set with Lua 5.3 in it has Lua 5.2 in it too.
    #[verifier::type_invariant]
    spec fn lua53_brings_lua52(self) -> bool {
        self.bitfield & VERSION_LUA53 != 0 ==> self.bitfield & VERSION_LUA52 != 0
    }

    /// The default set of versions: all of them.
    pub fn new() -> (r: Self)
        ensures
            r@ == (true, true, true),
    {
        Self::default()
    }

    /// Lua 5.1 alone.
    pub fn lua51() -> (r: Self)
        ensures
            r@ == (false, false, false),
    {
        assert(0u8 & 1u8 == 0 && 0u8 & 2u8 == 0 && 0u8 & 4u8 == 0) by (bit_vector);
        Self { bitfield: 0 }
    }

    /// Lua 5.1 and Luau.
    pub fn luau() -> (r: Self)
        ensures
            r@ == (true, false, false),
    {
        assert(1u8 & 1u8 != 0 && 1u8 & 2u8 == 0 && 1u8 & 4u8 == 0) by (bit_vector);
        Self { bitfield: VERSION_LUAU }
    }

    /// This set with Luau added.
    pub fn with_luau(self) -> (r: Self)
        ensures
            r@ == (true, self@.1, self@.2),
    {
        proof {
            use_type_invariant(&self);
        }
        let b = self.bitfield;
        assert((b | 1u8) & 1u8 != 0 && ((b | 1u8) & 2u8 != 0) == (b & 2u8 != 0) && ((b | 1u8)
            & 4u8 != 0) == (b & 4u8 != 0)) by (bit_vector);
        Self { bitfield: self.bitfield | VERSION_LUAU }
    }

    /// Whether Luau is in the set.
    pub fn has_luau(self) -> (r: bool)
        ensures
            r == self@.0,
    {
        self.bitfield & VERSION_LUAU != 0
    }

    /// Lua 5.1 and Lua 5.2.
    pub fn lua52() -> (r: Self)
        ensures
            r@ == (false, true, false),
    {
        assert(2u8 & 1u8 == 0 && 2u8 & 2u8 != 0 && 2u8 & 4u8 == 0) by (bit_vector);
        Self { bitfield: VERSION_LUA52 }
    }

    /// This set with Lua 5.2 added.
    pub fn with_lua52(self) -> (r: Self)
        ensures
            r@ == (self@.0, true, self@.2),
    {
        proof {
            use_type_invariant(&self);
        }
        let b = self.bitfield;
        assert(((b | 2u8) & 1u8 != 0) == (b & 1u8 != 0) && (b | 2u8) & 2u8 != 0 && ((b | 2u8)
            & 4u8 != 0) == (b & 4u8 != 0)) by (bit_vector);
        Self { bitfield: self.bitfield | VERSION_LUA52 }
    }

    /// Whether Lua 5.2 is in the set.
    pub fn has_lua52(self) -> (r: bool)
        ensures
            r == self@.1,
    {
        self.bitfield & VERSION_LUA52 != 0
    }

    /// Lua 5.1, Lua 5.2 and Lua 5.3.
    pub fn lua53() -> (r: Self)
        ensures
            r@ == (false, true, true),
    {
        assert((2u8 | 4u8) & 1u8 == 0 && (2u8 | 4u8) & 2u8 != 0 && (2u8 | 4u8) & 4u8 != 0)
            by (bit_vector);
        Self { bitfield: VERSION_LUA52 | VERSION_LUA53 }
    }

    /// This set with Lua 5.3, and so Lua 5.2, added.
    pub fn with_lua53(self) -> (r: Self)
        ensures
            r@ == (self@.0, true, true),
    {
        let b = self.bitfield;
        assert(((b | 2u8 | 4u8) & 1u8 != 0) == (b & 1u8 != 0) && (b | 2u8 | 4u8) & 2u8 != 0 && (b
            | 2u8 | 4u8) & 4u8 != 0) by (bit_vector);
        Self { bitfield: self.bitfield | VERSION_LUA52 | VERSION_LUA53 }
    }

    /// Whether Lua 5.3 is in the set; if it is, Lua 5.2 is too.
    pub fn has_lua53(self) -> (r: bool)
        ensures
            r == self@.2,
            r ==> self@.1,
    {
        proof {
            use_type_invariant(&self);
        }
        self.bitfield & VERSION_LUA53 != 0
    }
}

impl Default for LuaVersion {
    /// All the versions.
    fn default() -> (r: Self)
        ensures
            r@ == (true, true, true),
    {
        assert((1u8 | 2u8 | 4u8) & 1u8 != 0 && (1u8 | 2u8 | 4u8) & 2u8 != 0 && (1u8 | 2u8 | 4u8)
            & 4u8 != 0) by (bit_vector);
        Self { bitfield: VERSION_LUAU | VERSION_LUA52 | VERSION_LUA53 }
    }
}

} // verus!
