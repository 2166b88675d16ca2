use vstd::prelude::*;

verus! {

/// On which scheduler a rescheduled NIF runs.
#[derive(Clone, Copy, Debug, PartialEq, Eq, Structural)]
pub enum SchedulerFlags {
    Normal,
    DirtyCpu,
    DirtyIo,
}

impl SchedulerFlags {
    /// The value of the flag in the C API (`ERL_NIF_NORMAL_JOB`, `ERL_NIF_DIRTY_JOB_CPU_BOUND`,
    /// `ERL_NIF_DIRTY_JOB_IO_BOUND`).
    pub fn as_c_int(self) -> (r: i32)
        ensures
            r == (match self {
                SchedulerFlags::Normal => 0i32,
                SchedulerFlags::DirtyCpu => 1i32,
                SchedulerFlags::DirtyIo => 2i32,
            }),
    {
        match self {
            SchedulerFlags::Normal => 0,
            SchedulerFlags::DirtyCpu => 1,
            SchedulerFlags::DirtyIo => 2,
        }
    }
}

/// Flags for `enif_select`, and the flags it answers with.
#[derive(Clone, Copy, Debug, PartialEq, Eq, Structural)]
pub struct SelectFlags(pub i32);

impl SelectFlags {
    /// `ERL_NIF_SELECT_READ`.
    pub fn read() -> (r: SelectFlags)
        ensures
            r.0 == 1,
    {
        SelectFlags(1)
    }

    /// `ERL_NIF_SELECT_WRITE`.
    pub fn write() -> (r: SelectFlags)
        ensures
            r.0 == 2,
    {
        SelectFlags(2)
    }

    /// `ERL_NIF_SELECT_STOP`.
    pub fn stop() -> (r: SelectFlags)
        ensures
            r.0 == 4,
    {
        SelectFlags(4)
    }

    /// `ERL_NIF_SELECT_FAILED`.
    pub fn failed() -> (r: SelectFlags)
        ensures
            r.0 == 8,
    {
        SelectFlags(8)
    }

    /// `ERL_NIF_SELECT_READ_CANCELLED`.
    pub fn read_cancelled() -> (r: SelectFlags)
        ensures
            r.0 == 16,
    {
        SelectFlags(16)
    }

    /// `ERL_NIF_SELECT_WRITE_CANCELLED`.
    pub fn write_cancelled() -> (r: SelectFlags)
        ensures
            r.0 == 32,
    {
        SelectFlags(32)
    }

    /// `ERL_NIF_SELECT_ERROR_CANCELLED`.
    pub fn error_cancelled() -> (r: SelectFlags)
        ensures
            r.0 == 64,
    {
        SelectFlags(64)
    }

    /// `ERL_NIF_SELECT_NOTSUP`.
    pub fn notsup() -> (r: SelectFlags)
        ensures
            r.0 == 128,
    {
        SelectFlags(128)
    }


    /// No flag set.
    pub fn empty() -> (r: SelectFlags)
        ensures
            r.0 == 0,
    {
        SelectFlags(0)
    }

    /// The flags of both.
    pub fn union(self, other: SelectFlags) -> (r: SelectFlags)
        ensures
            r.0 == self.0 | other.0,
    {
        SelectFlags(self.0 | other.0)
    }

    /// Whether every flag of `other` is set in `self`.
    pub fn contains(self, other: SelectFlags) -> (r: bool)
        ensures
            r == (self.0 & other.0 == other.0),
    {
        self.0 & other.0 == other.0
    }

    /// The flags as the C API takes them.
    pub fn as_c_int(self) -> (r: i32)
        ensures
            r == self.0,
    {
        self.0
    }
}

/// Union is commutative and associative, and the empty set of flags is its unit.
pub proof fn lemma_select_flags_union(a: SelectFlags, b: SelectFlags, c: SelectFlags)
    ensures
        a.0 | b.0 == b.0 | a.0,
        (a.0 | b.0) | c.0 == a.0 | (b.0 | c.0),
        a.0 | 0i32 == a.0,
        (a.0 | b.0) & a.0 == a.0,
{
    let (x, y, z) = (a.0, b.0, c.0);
    assert(x | y == y | x) by (bit_vector);
    assert((x | y) | z == x | (y | z)) by (bit_vector);
    assert(x | 0i32 == x) by (bit_vector);
    assert((x | y) & x == x) by (bit_vector);
}

} // verus!
