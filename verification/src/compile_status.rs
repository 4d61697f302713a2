//! The state of a compile task, and the records the compile service keeps.
use vstd::prelude::*;
use std::cmp::Ordering;

verus! {

/// Where a compile task stands.
#[derive(Copy, Clone, Debug, PartialEq, Eq, Structural, Hash, PartialOrd, Ord)]
pub enum CompileStatus {
    Rejected,
    Queued,
    Running,
    Succeeded,
    Failed,
}

/// The number by which a status is stored: its place in the list above.
pub open spec fn status_code(s: CompileStatus) -> u8 {
    match s {
        CompileStatus::Rejected => 0,
        CompileStatus::Queued => 1,
        CompileStatus::Running => 2,
        CompileStatus::Succeeded => 3,
        CompileStatus::Failed => 4,
    }
}

/// A compile status held as its stored number, which is always one of the
/// five codes.
pub struct AtomicCompileStatus {
    atomic: u8,
}

impl View for AtomicCompileStatus {
    type V = CompileStatus;

    closed spec fn view(&self) -> CompileStatus {
        if self.atomic == 0 {
            CompileStatus::Rejected
        } else if self.atomic == 1 {
            CompileStatus::Queued
        } else if self.atomic == 2 {
            CompileStatus::Running
        } else if self.atomic == 3 {
            CompileStatus::Succeeded
        } else {
            CompileStatus::Failed
        }
    }
}

impl AtomicCompileStatus {
    #[verifier::type_invariant]
    spec fn is_code(self) -> bool {
        self.atomic <= 4
    }

    /// The stored number of this status.
    pub closed spec fn code(self) -> u8 {
        self.atomic
    }

    /// A status held by its code.
    pub fn from_compile_status(status: CompileStatus) -> (r: AtomicCompileStatus)
        ensures
            r@ == status,
            r.code() == status_code(status),
    {
        match status {
            CompileStatus::Rejected => AtomicCompileStatus { atomic: 0 },
            CompileStatus::Queued => AtomicCompileStatus { atomic: 1 },
            CompileStatus::Running => AtomicCompileStatus { atomic: 2 },
            CompileStatus::Succeeded => AtomicCompileStatus { atomic: 3 },
            CompileStatus::Failed => AtomicCompileStatus { atomic: 4 },
        }
    }

    /// The status this code stands for.
    pub fn as_compile_status(&self) -> (r: CompileStatus)
        ensures
            r == self@,
            status_code(r) == self.code(),
    {
        proof {
            use_type_invariant(self);
        }
        match self.atomic {
            0 => CompileStatus::Rejected,
            1 => CompileStatus::Queued,
            2 => CompileStatus::Running,
            3 => CompileStatus::Succeeded,
            _ => CompileStatus::Failed,
        }
    }

    /// Stores a status (its code, through the atomic the holder wraps).
    pub fn store(&mut self, status: CompileStatus)
        ensures
            final(self)@ == status,
            final(self).code() == status_code(status),
    {
        self.atomic = match status {
            CompileStatus::Rejected => 0,
            CompileStatus::Queued => 1,
            CompileStatus::Running => 2,
            CompileStatus::Succeeded => 3,
            CompileStatus::Failed => 4,
        };
    }

    /// A second holder of the same status.
    pub fn clone(&self) -> (r: AtomicCompileStatus)
        ensures
            r@ == self@,
            r.code() == self.code(),
    {
        proof {
            use_type_invariant(self);
        }
        AtomicCompileStatus { atomic: self.atomic }
    }

    /// Whether two holders hold the same status.
    pub fn eq(&self, other: &AtomicCompileStatus) -> (r: bool)
        ensures
            r == (self@ == other@),
    {
        proof {
            use_type_invariant(self);
            use_type_invariant(other);
        }
        self.atomic == other.atomic
    }

    /// How two statuses compare by their codes.
    pub fn partial_cmp(&self, other: &AtomicCompileStatus) -> (r: Option<Ordering>)
        ensures
            r matches Some(o) && (o == Ordering::Less <==> self.code() < other.code()) && (o
                == Ordering::Equal <==> self.code() == other.code()) && (o == Ordering::Greater
                <==> self.code() > other.code()),
    {
        if self.atomic < other.atomic {
            Some(Ordering::Less)
        } else if self.atomic == other.atomic {
            Some(Ordering::Equal)
        } else {
            Some(Ordering::Greater)
        }
    }
}

/// Two statuses are equal exactly when their codes are.
pub proof fn lemma_status_code_injective(s: CompileStatus, t: CompileStatus)
    ensures
        (status_code(s) == status_code(t)) <==> (s == t),
{
}

/// The id of a build.
#[derive(Copy, Clone, Debug, PartialEq, Eq, Structural, Hash)]
pub struct BuildId {
    pub id: u64,
}

/// The bytes of a number in the machine's byte order: little-endian on one
/// machine, big-endian on another.
pub open spec fn byte_of(n: u64, k: int) -> u8 {
    ((n as int / pow256(k)) % 256) as u8
}

pub open spec fn pow256(k: int) -> int
    decreases k,
{
    if k <= 0 {
        1
    } else {
        256 * pow256(k - 1)
    }
}

pub open spec fn le_bytes(n: u64) -> Seq<u8> {
    Seq::new(8, |k: int| byte_of(n, k))
}

pub open spec fn be_bytes(n: u64) -> Seq<u8> {
    Seq::new(8, |k: int| byte_of(n, 7 - k))
}

/// std's `u64::to_ne_bytes`.  Claimed, as std documents it: the eight bytes
/// of the number in the machine's byte order, which is little- or big-endian.
#[verifier::external_body]
fn native_bytes(n: u64) -> (r: Vec<u8>)
    ensures
        r@ == le_bytes(n) || r@ == be_bytes(n),
{
    n.to_ne_bytes().to_vec()
}

impl BuildId {
    /// The id's bytes in the machine's byte order (what `AsRef<[u8]>` gives).
    pub fn bytes(&self) -> (r: Vec<u8>)
        ensures
            r@ == le_bytes(self.id) || r@ == be_bytes(self.id),
            r@.len() == 8,
    {
        native_bytes(self.id)
    }
}

/// A compile task that waits to be run; tasks are the same when their
/// builds are.
pub struct PendingCompileTask {
    pub build_id: BuildId,
    pub bytes_snap: Vec<u8>,
}

impl PendingCompileTask {
    /// Whether two tasks are for the same build (`PartialEq`).
    pub fn eq(&self, other: &PendingCompileTask) -> (r: bool)
        ensures
            r == (self.build_id.id == other.build_id.id),
    {
        self.build_id.id == other.build_id.id
    }

    /// How two tasks compare: by their build ids (`PartialOrd`).
    pub fn partial_cmp(&self, other: &PendingCompileTask) -> (r: Option<Ordering>)
        ensures
            r matches Some(o) && (o == Ordering::Less <==> self.build_id.id < other.build_id.id) && (o
                == Ordering::Equal <==> self.build_id.id == other.build_id.id) && (o == Ordering::Greater
                <==> self.build_id.id > other.build_id.id),
    {
        if self.build_id.id < other.build_id.id {
            Some(Ordering::Less)
        } else if self.build_id.id == other.build_id.id {
            Some(Ordering::Equal)
        } else {
            Some(Ordering::Greater)
        }
    }
}

/// The bytes of a pak handed to the compiler.
pub struct CompileTask {
    data_bytes: Vec<u8>,
}

/// The bytes the compiler handed back.
pub struct CompileOutput {
    data_bytes: Vec<u8>,
}

impl CompileTask {
    pub fn new(data_bytes: Vec<u8>) -> (r: CompileTask)
        ensures
            r.bytes()@ == data_bytes@,
    {
        CompileTask { data_bytes }
    }

    pub closed spec fn bytes(&self) -> Vec<u8> {
        self.data_bytes
    }

    /// The task's bytes (`Deref`).
    pub fn data(&self) -> (r: &Vec<u8>)
        ensures
            r@ == self.bytes()@,
    {
        &self.data_bytes
    }

    /// Appends bytes to the task (through `DerefMut`).
    pub fn extend(&mut self, more: &[u8])
        ensures
            final(self).bytes()@ == old(self).bytes()@ + more@,
    {
        let mut k: usize = 0;
        let ghost start = self.data_bytes@;
        while k < more.len()
            invariant
                0 <= k <= more@.len(),
                self.data_bytes@ == start + more@.take(k as int),
            decreases more@.len() - k,
        {
            self.data_bytes.push(more[k]);
            proof {
                assert(more@.take(k + 1) =~= more@.take(k as int).push(more@[k as int]));
            }
            k = k + 1;
        }
        proof {
            assert(more@.take(more@.len() as int) =~= more@);
        }
    }
}

impl CompileOutput {
    pub fn new(data_bytes: Vec<u8>) -> (r: CompileOutput)
        ensures
            r.bytes()@ == data_bytes@,
    {
        CompileOutput { data_bytes }
    }

    pub closed spec fn bytes(&self) -> Vec<u8> {
        self.data_bytes
    }

    /// The output's bytes (`Deref`).
    pub fn data(&self) -> (r: &Vec<u8>)
        ensures
            r@ == self.bytes()@,
    {
        &self.data_bytes
    }
}

/// The compiler that runs tasks on threads of its own.
pub struct ThreadedCompiler {}

} // verus!
