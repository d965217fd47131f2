use vstd::prelude::*;

verus! {

/// Read only; the access mode `0`.
pub const O_RDONLY: u32 = 0;
/// Write only; the access mode `1`.
pub const O_WRONLY: u32 = 1 << 0;
/// Read and write; the access mode `2`.
pub const O_RDWR: u32 = 1 << 1;
/// Create a regular file at the path when it does not exist.
pub const O_CREAT: u32 = 1 << 6;
/// Together with `O_CREAT`: the file must already have existed; `open`
/// fails with `EEXIST` when it exists and with `ENOENT` when it does not,
/// and creates nothing.
pub const O_EXCL: u32 = 1 << 7;
/// A terminal device at the path does not become the controlling terminal.
pub const O_NOCTTY: u32 = 1 << 8;
/// Truncate to length 0 a regular file opened for writing; a directory is
/// left as it is.
pub const O_TRUNC: u32 = 1 << 9;
/// Append writes to the end of the file (not supported yet).
pub const O_APPEND: u32 = 1 << 10;
/// Synchronised data writes (not supported yet).
pub const O_DSYNC: u32 = 1 << 12;
/// Signal-driven I/O (not supported yet).
pub const O_ASYNC: u32 = 1 << 13;
/// Bypass the cache (the cache is still used).
pub const O_DIRECT: u32 = 1 << 14;
/// Allow files whose size does not fit in 32 bits.
pub const O_LARGEFILE: u32 = 1 << 15;
/// Fail with `ENOTDIR` when the entry opened is not a directory; a file
/// is then not created either.
pub const O_DIRECTORY: u32 = 1 << 16;
/// Close the descriptor on `exec`.
pub const O_CLOEXEC: u32 = 1 << 19;

/// Every bit that names a flag.
pub const ALL_OPEN_FLAGS: u32 = O_WRONLY | O_RDWR | O_CREAT | O_EXCL | O_NOCTTY | O_TRUNC
    | O_APPEND | O_DSYNC | O_ASYNC | O_DIRECT | O_LARGEFILE | O_DIRECTORY | O_CLOEXEC;

/// The two low bits of the flags: the access mode.
pub open spec fn access_mode(bits: u32) -> u32 {
    bits % 4
}

/// Whether the access mode is one of read only, write only, read and write.
pub open spec fn valid_access_mode(bits: u32) -> bool {
    access_mode(bits) != 0b11
}

/// `(readable, writable)` granted by a valid access mode.
pub open spec fn read_write_of(bits: u32) -> (bool, bool) {
    if access_mode(bits) == 0 {
        (true, false)
    } else if access_mode(bits) == 1 {
        (false, true)
    } else {
        (true, true)
    }
}

/// Flags given to `open`. The low two bits select the access mode:
/// `0` read only, `1` write only, `2` read and write; `3` is invalid.
#[derive(Copy, Clone, Debug, PartialEq, Eq, Structural)]
pub struct OpenFlags {
    bits: u32,
}

impl View for OpenFlags {
    type V = u32;

    closed spec fn view(&self) -> u32 {
        self.bits
    }
}

impl OpenFlags {
    /// No flag set: read only.
    pub fn empty() -> (f: Self)
        ensures
            f@ == 0,
    {
        OpenFlags { bits: 0 }
    }

    /// The flags named by `bits`; bits that name no flag are dropped.
    pub fn from_bits_truncate(bits: u32) -> (f: Self)
        ensures
            f@ == bits & ALL_OPEN_FLAGS,
    {
        OpenFlags { bits: bits & ALL_OPEN_FLAGS }
    }

    /// The flags named by `bits`, or `None` when a bit names no flag.
    pub fn from_bits(bits: u32) -> (f: Option<Self>)
        ensures
            f is Some <==> bits & !ALL_OPEN_FLAGS == 0,
            f matches Some(g) ==> g@ == bits,
    {
        if bits & !ALL_OPEN_FLAGS == 0 {
            Some(OpenFlags { bits })
        } else {
            None
        }
    }

    /// The raw bits.
    pub fn bits(&self) -> (b: u32)
        ensures
            b == self@,
    {
        self.bits
    }

    /// Whether every flag of `other` is set in `self`.
    pub fn contains(&self, other: OpenFlags) -> (r: bool)
        ensures
            r == (self@ & other@ == other@),
    {
        self.bits & other.bits == other.bits
    }

    /// Sets the flags of `other` when `value` holds, clears them otherwise.
    pub fn set(&mut self, other: OpenFlags, value: bool)
        ensures
            value ==> final(self)@ == old(self)@ | other@,
            !value ==> final(self)@ == old(self)@ & !other@,
    {
        if value {
            self.bits = self.bits | other.bits;
        } else {
            self.bits = self.bits & !other.bits;
        }
    }

    /// The read/write permission the access mode grants, as
    /// `(readable, writable)`. The mode is not checked beyond being one of
    /// the three valid ones.
    pub fn read_write(&self) -> (rw: (bool, bool))
        requires
            valid_access_mode(self@),
        ensures
            rw == read_write_of(self@),
    {
        let b = self.bits;
        let mode = b & 0b11;
        assert(b & 0b11 == b % 4) by (bit_vector);
        if mode == 0 {
            (true, false)
        } else if mode == 1 {
            (false, true)
        } else {
            (true, true)
        }
    }
}

/// The flags that `open` tests name only known bits, so truncating them to
/// the known bits keeps them whole.
pub proof fn lemma_named_flags_are_known()
    ensures
        (O_CREAT | O_EXCL) & ALL_OPEN_FLAGS == O_CREAT | O_EXCL,
        O_CREAT & ALL_OPEN_FLAGS == O_CREAT,
        O_TRUNC & ALL_OPEN_FLAGS == O_TRUNC,
        O_EXCL & ALL_OPEN_FLAGS == O_EXCL,
        O_DIRECTORY & ALL_OPEN_FLAGS == O_DIRECTORY,
        O_CLOEXEC & ALL_OPEN_FLAGS == O_CLOEXEC,
        O_CLOEXEC & 0b11 == 0,
{
    assert(((1u32 << 6u32) | (1u32 << 7u32)) & ALL_OPEN_FLAGS == (1u32 << 6u32) | (1u32 << 7u32))
        by (bit_vector);
    assert((1u32 << 6u32) & ALL_OPEN_FLAGS == (1u32 << 6u32)) by (bit_vector);
    assert((1u32 << 9u32) & ALL_OPEN_FLAGS == (1u32 << 9u32)) by (bit_vector);
    assert((1u32 << 7u32) & ALL_OPEN_FLAGS == (1u32 << 7u32)) by (bit_vector);
    assert((1u32 << 16u32) & ALL_OPEN_FLAGS == (1u32 << 16u32)) by (bit_vector);
    assert((1u32 << 19u32) & ALL_OPEN_FLAGS == (1u32 << 19u32)) by (bit_vector);
    assert((1u32 << 19u32) & 0b11u32 == 0) by (bit_vector);
}

/// Containing `O_CREAT | O_EXCL` is containing both.
pub proof fn lemma_creat_excl_bits(bits: u32)
    ensures
        (bits & (O_CREAT | O_EXCL) == (O_CREAT | O_EXCL)) == (bits & O_CREAT == O_CREAT && bits
            & O_EXCL == O_EXCL),
{
    assert((bits & ((1u32 << 6u32) | (1u32 << 7u32)) == ((1u32 << 6u32) | (1u32 << 7u32))) == (
    bits & (1u32 << 6u32) == (1u32 << 6u32) && bits & (1u32 << 7u32) == (1u32 << 7u32)))
        by (bit_vector);
}

/// Every valid access mode grants reading or writing, or both.
pub proof fn law_valid_mode_grants_access(bits: u32)
    requires
        valid_access_mode(bits),
    ensures
        read_write_of(bits).0 || read_write_of(bits).1,
{
}

/// The permission depends on the two low bits alone: read only (`0`)
/// grants reading and not writing, write only (`1`) writing and not
/// reading, read and write (`2`) both; no other flag changes it.
pub proof fn law_permission_of_access_mode(bits: u32, other: u32)
    requires
        valid_access_mode(bits),
        other % 4 == bits % 4,
    ensures
        read_write_of(bits).0 == (bits % 4 != 1),
        read_write_of(bits).1 == (bits % 4 != 0),
        bits % 4 == 0 ==> read_write_of(bits) == (true, false),
        bits % 4 == 1 ==> read_write_of(bits) == (false, true),
        bits % 4 == 2 ==> read_write_of(bits) == (true, true),
        read_write_of(other) == read_write_of(bits),
{
}

/// Setting or clearing flags above the two low bits keeps the access mode,
/// and so the read/write permission.
pub proof fn law_set_keeps_access_mode(bits: u32, other: u32, value: bool)
    requires
        other & 0b11 == 0,
    ensures
        access_mode(if value { bits | other } else { bits & !other }) == access_mode(bits),
{
    assert((bits | other) % 4 == bits % 4) by (bit_vector)
        requires
            other & 0b11 == 0,
    ;
    assert((bits & !other) % 4 == bits % 4) by (bit_vector)
        requires
            other & 0b11 == 0,
    ;
}

/// After `set(other, true)` the flags contain `other`; after
/// `set(other, false)` they share no bit with it.
pub proof fn law_set_then_contains(bits: u32, other: u32)
    ensures
        (bits | other) & other == other,
        (bits & !other) & other == 0,
{
    assert((bits | other) & other == other) by (bit_vector);
    assert((bits & !other) & other == 0) by (bit_vector);
}

} // verus!
