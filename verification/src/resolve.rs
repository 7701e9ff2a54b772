//! Process discovery and base-address resolution logic.
//!
//! Discovery walks the system's process list and picks the entry whose
//! executable file name matches a fixed byte pattern. Resolution then walks
//! the chosen process's module list and returns the load address of the
//! module whose full path equals the process's own image path byte for
//! byte. The enumeration itself happens outside this crate; the decisions —
//! which entry matches, which module is the image, how many entries an
//! enumeration reported — are made here, on plain values.

use vstd::prelude::*;

verus! {

/// Number of bytes of the target executable's file name, including the
/// trailing NUL terminator.
pub const TARGET_EXE_NAME_LEN: usize = 13;

/// Fixed capacity of the module list handed to module enumeration.
pub const MODULE_LIST_CAPACITY: u64 = 1024;

/// Exit status a still-running process reports when queried.
pub const STILL_ACTIVE_EXIT_CODE: u32 = 259;

/// The target executable's file name, `Spelunky.exe`, as the fixed
/// NUL-terminated byte pattern it is matched by.
pub open spec fn target_exe_name() -> Seq<u8> {
    seq![
        0x53u8, 0x70, 0x65, 0x6c, 0x75, 0x6e, 0x6b, 0x79, 0x2e, 0x65, 0x78, 0x65, 0x00,
    ]
}

/// True when the buffer begins with the target executable's name. This is
/// a byte-pattern match over the name's fixed length: bytes past the name,
/// which may be garbage in a fixed-capacity entry buffer, are excluded from
/// the comparison.
pub open spec fn spec_matches_target(s: Seq<u8>) -> bool {
    &&& s.len() >= TARGET_EXE_NAME_LEN
    &&& forall|j: int| 0 <= j < TARGET_EXE_NAME_LEN ==> s[j] == #[trigger] target_exe_name()[j]
}

/// The target executable's name as a byte vector.
pub fn target_exe_name_bytes() -> (v: Vec<u8>)
    ensures
        v@ == target_exe_name(),
{
    let mut v: Vec<u8> = Vec::new();
    v.push(0x53);
    v.push(0x70);
    v.push(0x65);
    v.push(0x6c);
    v.push(0x75);
    v.push(0x6e);
    v.push(0x6b);
    v.push(0x79);
    v.push(0x2e);
    v.push(0x65);
    v.push(0x78);
    v.push(0x65);
    v.push(0x00);
    proof {
        assert(v@ =~= target_exe_name());
    }
    v
}

/// Whether a process entry's executable file name is the target's.
pub fn matches_target_exe(buf: &Vec<u8>) -> (b: bool)
    ensures
        b == spec_matches_target(buf@),
{
    if buf.len() < TARGET_EXE_NAME_LEN {
        return false;
    }
    let name = target_exe_name_bytes();
    let mut i: usize = 0;
    while i < TARGET_EXE_NAME_LEN
        invariant
            buf@.len() >= TARGET_EXE_NAME_LEN,
            name@ == target_exe_name(),
            i <= TARGET_EXE_NAME_LEN,
            forall|j: int| 0 <= j < i ==> buf@[j] == #[trigger] target_exe_name()[j],
        decreases TARGET_EXE_NAME_LEN - i,
    {
        if buf[i] != name[i] {
            return false;
        }
        i += 1;
    }
    true
}

/// One loaded module of the target process, as enumeration reported it:
/// its load address and its full file path.
pub struct ModuleInfo {
    pub base: u64,
    pub path: Vec<u8>,
}

/// Byte-for-byte equality of two byte buffers.
fn bytes_eq(a: &Vec<u8>, b: &Vec<u8>) -> (r: bool)
    ensures
        r == (a@ == b@),
{
    if a.len() != b.len() {
        return false;
    }
    let n: usize = a.len();
    let mut i: usize = 0;
    while i < n
        invariant
            n == a@.len(),
            n == b@.len(),
            i <= n,
            forall|j: int| 0 <= j < i ==> a@[j] == b@[j],
        decreases n - i,
    {
        if a[i] != b[i] {
            return false;
        }
        i += 1;
    }
    proof {
        assert(a@ =~= b@);
    }
    true
}

/// The load address of the first enumerated module whose path equals the
/// process's own image path, byte for byte over the whole fixed-capacity
/// path buffer. That module is the process's executable image, and its
/// load address is the base every decode offset is relative to. `None`
/// when no module's path matches.
pub fn select_module_base(image_path: &Vec<u8>, modules: &Vec<ModuleInfo>) -> (r: Option<u64>)
    ensures
        r is Some <==> exists|i: int|
            0 <= i < modules@.len() && (#[trigger] modules@[i].path@) == image_path@,
        r matches Some(base) ==> exists|i: int|
            {
                &&& 0 <= i < modules@.len()
                &&& (#[trigger] modules@[i].path@) == image_path@
                &&& modules@[i].base == base
                &&& forall|j: int| 0 <= j < i ==> modules@[j].path@ != image_path@
            },
{
    let n: usize = modules.len();
    let mut idx: usize = 0;
    while idx < n
        invariant
            n == modules@.len(),
            idx <= n,
            forall|j: int| 0 <= j < idx ==> (#[trigger] modules@[j].path@) != image_path@,
        decreases n - idx,
    {
        if bytes_eq(&modules[idx].path, image_path) {
            return Some(modules[idx].base);
        }
        idx += 1;
    }
    None
}

/// Number of whole module entries an enumeration reported, given the byte
/// count it wrote, the size of one entry, and the fixed capacity of the
/// list it wrote into. `None` when the byte count does not divide evenly
/// into entries, or when the count would overflow the capacity.
pub fn module_count(bytes_written: u64, entry_size: u64, capacity: u64) -> (r: Option<u64>)
    requires
        entry_size > 0,
    ensures
        r is Some <==> (bytes_written % entry_size == 0 && bytes_written / entry_size
            <= capacity),
        r matches Some(n) ==> n == bytes_written / entry_size,
{
    if bytes_written % entry_size != 0 {
        return None;
    }
    let n: u64 = bytes_written / entry_size;
    if n > capacity {
        return None;
    }
    Some(n)
}

/// Interprets a queried exit status: a process is alive exactly when it
/// reports the still-active status; any other status is treated as exited.
pub fn interpret_exit_code(code: u32) -> (alive: bool)
    ensures
        alive == (code == STILL_ACTIVE_EXIT_CODE),
{
    code == STILL_ACTIVE_EXIT_CODE
}

} // verus!
