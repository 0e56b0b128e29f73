use vstd::prelude::*;

verus! {

/// Details of an insertion refused because the key is already in the table.
#[derive(Debug)]
pub struct KeyAlreadyExistsError {
    /// The name of the table.
    pub table_name: &'static str,
    /// The key that already exists in the table, in its debug form.
    pub key: String,
    /// The value that was to be inserted, in its debug form.
    pub value: String,
}

/// Relies on std's `Debug` formatting (`format!("{:?}", ..)`) for the text of a value.
#[verifier::external_body]
fn debug_text<T: std::fmt::Debug>(value: &T) -> String {
    format!("{:?}", value)
}

impl KeyAlreadyExistsError {
    /// The error for `key` found in `table_name` when `value` was to be inserted; the key and
    /// the value are kept in their debug form.
    pub fn new<K: std::fmt::Debug, V: std::fmt::Debug>(
        table_name: &'static str,
        key: &K,
        value: &V,
    ) -> (r: Self)
        ensures
            r.table_name == table_name,
    {
        KeyAlreadyExistsError { table_name, key: debug_text(key), value: debug_text(value) }
    }
}

/// Smallest page size that the database accepts, in bytes.
pub const MDBX_MIN_PAGESIZE: usize = 256;

/// Largest page size that the database accepts, in bytes.
pub const MDBX_MAX_PAGESIZE: usize = 65536;

/// Whether `x` is a power of two.
pub open spec fn is_power_of_two(x: nat) -> bool
    decreases x,
{
    if x == 1 {
        true
    } else if x < 2 || x % 2 != 0 {
        false
    } else {
        is_power_of_two(x / 2)
    }
}

/// `x` held within the bounds of the database's page sizes.
pub open spec fn clamped_page_size(x: nat) -> nat {
    if x < MDBX_MIN_PAGESIZE {
        MDBX_MIN_PAGESIZE as nat
    } else if x > MDBX_MAX_PAGESIZE {
        MDBX_MAX_PAGESIZE as nat
    } else {
        x
    }
}

/// The page size for the database given the system's: the largest power of two that does not
/// exceed the system's page size held within the database's bounds.
pub fn get_page_size(os_page_size: usize) -> (r: usize)
    ensures
        is_power_of_two(r as nat),
        r <= clamped_page_size(os_page_size as nat) < 2 * r,
        MDBX_MIN_PAGESIZE <= r <= MDBX_MAX_PAGESIZE,
{
    let bounded: usize = if os_page_size < MDBX_MIN_PAGESIZE {
        MDBX_MIN_PAGESIZE
    } else if os_page_size > MDBX_MAX_PAGESIZE {
        MDBX_MAX_PAGESIZE
    } else {
        os_page_size
    };
    let mut page_size: usize = MDBX_MIN_PAGESIZE;
    proof {
        reveal_with_fuel(is_power_of_two, 9);
    }
    while page_size <= bounded / 2
        invariant
            is_power_of_two(page_size as nat),
            MDBX_MIN_PAGESIZE <= page_size <= bounded,
            bounded == clamped_page_size(os_page_size as nat),
            bounded <= MDBX_MAX_PAGESIZE,
        decreases bounded - page_size,
    {
        assert((2 * page_size) as nat / 2 == page_size as nat);
        page_size = page_size * 2;
    }
    page_size
}

/// Marks a read-only transaction.
#[derive(Clone, Copy, Debug)]
pub struct RO {}

/// Marks a read-write transaction.
#[derive(Clone, Copy, Debug)]
pub struct RW {}

} // verus!
