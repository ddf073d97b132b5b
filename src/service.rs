//! The kernel services and the identifiers the trap handler dispatches on.
use vstd::prelude::*;

verus! {

/// Smallest service identifier.
pub const FIRST_ID: u32 = 1;

/// Largest service identifier; identifiers are dense from `FIRST_ID` up to it.
pub const LAST_ID: u32 = 21;

/// Identifier of the service to duplicate the calling process.
pub const SYS_FORK: u32 = 1;

/// Identifier of the service to terminate the calling process.
pub const SYS_EXIT: u32 = 2;

/// Identifier of the service to wait for a child to exit.
pub const SYS_WAIT: u32 = 3;

/// Identifier of the service to create a pipe.
pub const SYS_PIPE: u32 = 4;

/// Identifier of the service to read from a descriptor.
pub const SYS_READ: u32 = 5;

/// Identifier of the service to signal a process.
pub const SYS_KILL: u32 = 6;

/// Identifier of the service to replace the process image.
pub const SYS_EXEC: u32 = 7;

/// Identifier of the service to query a file's status.
pub const SYS_FSTAT: u32 = 8;

/// Identifier of the service to change the working directory.
pub const SYS_CHDIR: u32 = 9;

/// Identifier of the service to duplicate a descriptor.
pub const SYS_DUP: u32 = 10;

/// Identifier of the service that reports the current process identifier.
pub const SYS_GETPID: u32 = 11;

/// Identifier of the service to grow or shrink the heap.
pub const SYS_SBRK: u32 = 12;

/// Identifier of the service to sleep for a number of ticks.
pub const SYS_SLEEP: u32 = 13;

/// Identifier of the service that reports the ticks since boot.
pub const SYS_UPTIME: u32 = 14;

/// Identifier of the service to open a file.
pub const SYS_OPEN: u32 = 15;

/// Identifier of the service to write to a descriptor.
pub const SYS_WRITE: u32 = 16;

/// Identifier of the service to make a device file.
pub const SYS_MKNOD: u32 = 17;

/// Identifier of the service to remove a directory entry.
pub const SYS_UNLINK: u32 = 18;

/// Identifier of the service to create a hard link.
pub const SYS_LINK: u32 = 19;

/// Identifier of the service to make a directory.
pub const SYS_MKDIR: u32 = 20;

/// Identifier of the service to close a descriptor.
pub const SYS_CLOSE: u32 = 21;

/// One kernel service, reached by a trap with its identifier in the
/// selector register.
#[derive(Clone, Copy, Debug, PartialEq, Eq, Structural)]
pub enum Service {
    Fork,
    Exit,
    Wait,
    Pipe,
    Read,
    Kill,
    Exec,
    Fstat,
    Chdir,
    Dup,
    Getpid,
    Sbrk,
    Sleep,
    Uptime,
    Open,
    Write,
    Mknod,
    Unlink,
    Link,
    Mkdir,
    Close,
}

/// How the kernel's reply in the return register is to be read.
#[derive(Clone, Copy, Debug, PartialEq, Eq, Structural)]
pub enum Reply {
    /// A signed 32-bit status, count or identifier; negative means failure.
    Status,
    /// A byte address (the previous heap break).
    Address,
    /// Control comes back only when the service failed.
    OnlyOnFailure,
    /// Control never comes back.
    Never,
}

/// The identifier the kernel's dispatch table gives to `s`.
pub open spec fn service_id(s: Service) -> nat {
    match s {
        Service::Fork => 1,
        Service::Exit => 2,
        Service::Wait => 3,
        Service::Pipe => 4,
        Service::Read => 5,
        Service::Kill => 6,
        Service::Exec => 7,
        Service::Fstat => 8,
        Service::Chdir => 9,
        Service::Dup => 10,
        Service::Getpid => 11,
        Service::Sbrk => 12,
        Service::Sleep => 13,
        Service::Uptime => 14,
        Service::Open => 15,
        Service::Write => 16,
        Service::Mknod => 17,
        Service::Unlink => 18,
        Service::Link => 19,
        Service::Mkdir => 20,
        Service::Close => 21,
    }
}

/// The service whose identifier is `id`, for `id` in `FIRST_ID..=LAST_ID`.
pub open spec fn service_of(id: nat) -> Service
    recommends
        FIRST_ID <= id <= LAST_ID,
{
    if id == 1 { Service::Fork }
    else if id == 2 { Service::Exit }
    else if id == 3 { Service::Wait }
    else if id == 4 { Service::Pipe }
    else if id == 5 { Service::Read }
    else if id == 6 { Service::Kill }
    else if id == 7 { Service::Exec }
    else if id == 8 { Service::Fstat }
    else if id == 9 { Service::Chdir }
    else if id == 10 { Service::Dup }
    else if id == 11 { Service::Getpid }
    else if id == 12 { Service::Sbrk }
    else if id == 13 { Service::Sleep }
    else if id == 14 { Service::Uptime }
    else if id == 15 { Service::Open }
    else if id == 16 { Service::Write }
    else if id == 17 { Service::Mknod }
    else if id == 18 { Service::Unlink }
    else if id == 19 { Service::Link }
    else if id == 20 { Service::Mkdir }
    else { Service::Close }
}

/// Number of argument registers the service reads.
pub open spec fn service_arity(s: Service) -> nat {
    match s {
        Service::Fork | Service::Getpid | Service::Uptime => 0,
        Service::Exit | Service::Wait | Service::Pipe | Service::Kill | Service::Chdir
        | Service::Dup | Service::Sbrk | Service::Sleep | Service::Unlink | Service::Mkdir
        | Service::Close => 1,
        Service::Exec | Service::Fstat | Service::Open | Service::Link => 2,
        Service::Read | Service::Write | Service::Mknod => 3,
    }
}

/// The reading of the reply register.
pub open spec fn service_reply(s: Service) -> Reply {
    match s {
        Service::Exit => Reply::Never,
        Service::Exec => Reply::OnlyOnFailure,
        Service::Sbrk => Reply::Address,
        _ => Reply::Status,
    }
}

/// Position of the argument that points at memory the kernel fills in.
pub open spec fn service_output_arg(s: Service) -> Option<nat> {
    match s {
        Service::Wait | Service::Pipe => Some(0),
        Service::Read | Service::Fstat => Some(1),
        _ => None,
    }
}

impl Service {
    /// The identifier loaded into the selector register before the trap.
    pub fn id(self) -> (r: u32)
        ensures
            r == service_id(self),
    {
        match self {
            Service::Fork => SYS_FORK,
            Service::Exit => SYS_EXIT,
            Service::Wait => SYS_WAIT,
            Service::Pipe => SYS_PIPE,
            Service::Read => SYS_READ,
            Service::Kill => SYS_KILL,
            Service::Exec => SYS_EXEC,
            Service::Fstat => SYS_FSTAT,
            Service::Chdir => SYS_CHDIR,
            Service::Dup => SYS_DUP,
            Service::Getpid => SYS_GETPID,
            Service::Sbrk => SYS_SBRK,
            Service::Sleep => SYS_SLEEP,
            Service::Uptime => SYS_UPTIME,
            Service::Open => SYS_OPEN,
            Service::Write => SYS_WRITE,
            Service::Mknod => SYS_MKNOD,
            Service::Unlink => SYS_UNLINK,
            Service::Link => SYS_LINK,
            Service::Mkdir => SYS_MKDIR,
            Service::Close => SYS_CLOSE,
        }
    }

    /// The service with identifier `id`, or `None` when no service has it.
    pub fn from_id(id: u32) -> (r: Option<Service>)
        ensures
            r.is_some() <==> FIRST_ID <= id <= LAST_ID,
            r.is_some() ==> r == Some(service_of(id as nat)),
            r.is_some() ==> service_id(r.unwrap()) == id,
    {
        match id {
            SYS_FORK => Some(Service::Fork),
            SYS_EXIT => Some(Service::Exit),
            SYS_WAIT => Some(Service::Wait),
            SYS_PIPE => Some(Service::Pipe),
            SYS_READ => Some(Service::Read),
            SYS_KILL => Some(Service::Kill),
            SYS_EXEC => Some(Service::Exec),
            SYS_FSTAT => Some(Service::Fstat),
            SYS_CHDIR => Some(Service::Chdir),
            SYS_DUP => Some(Service::Dup),
            SYS_GETPID => Some(Service::Getpid),
            SYS_SBRK => Some(Service::Sbrk),
            SYS_SLEEP => Some(Service::Sleep),
            SYS_UPTIME => Some(Service::Uptime),
            SYS_OPEN => Some(Service::Open),
            SYS_WRITE => Some(Service::Write),
            SYS_MKNOD => Some(Service::Mknod),
            SYS_UNLINK => Some(Service::Unlink),
            SYS_LINK => Some(Service::Link),
            SYS_MKDIR => Some(Service::Mkdir),
            SYS_CLOSE => Some(Service::Close),
            _ => None,
        }
    }

    /// Number of arguments the caller passes in the argument registers.
    pub fn arity(self) -> (r: usize)
        ensures
            r == service_arity(self),
    {
        match self {
            Service::Fork | Service::Getpid | Service::Uptime => 0,
            Service::Exit | Service::Wait | Service::Pipe | Service::Kill | Service::Chdir
            | Service::Dup | Service::Sbrk | Service::Sleep | Service::Unlink | Service::Mkdir
            | Service::Close => 1,
            Service::Exec | Service::Fstat | Service::Open | Service::Link => 2,
            Service::Read | Service::Write | Service::Mknod => 3,
        }
    }

    /// How the value in the return register is to be read.
    pub fn reply(self) -> (r: Reply)
        ensures
            r == service_reply(self),
    {
        match self {
            Service::Exit => Reply::Never,
            Service::Exec => Reply::OnlyOnFailure,
            Service::Sbrk => Reply::Address,
            _ => Reply::Status,
        }
    }

    /// Position of the argument that points at memory the kernel writes,
    /// if the service has one.
    pub fn output_arg(self) -> (r: Option<usize>)
        ensures
            r.is_some() == service_output_arg(self).is_some(),
            r.is_some() ==> r.unwrap() == service_output_arg(self).unwrap(),
    {
        match self {
            Service::Wait | Service::Pipe => Some(0),
            Service::Read | Service::Fstat => Some(1),
            _ => None,
        }
    }
}

/// Every service has an identifier in `FIRST_ID..=LAST_ID`, and the
/// identifier names that service back.
pub proof fn lemma_id_in_range(s: Service)
    ensures
        FIRST_ID <= service_id(s) <= LAST_ID,
        service_of(service_id(s)) == s,
{
}

/// Distinct services never share an identifier.
pub proof fn lemma_id_unique(s: Service, t: Service)
    requires
        service_id(s) == service_id(t),
    ensures
        s == t,
{
    lemma_id_in_range(s);
    lemma_id_in_range(t);
}

/// Every identifier in `FIRST_ID..=LAST_ID` belongs to exactly one service:
/// the numbering has no gaps.
pub proof fn lemma_id_dense(id: nat)
    requires
        FIRST_ID <= id <= LAST_ID,
    ensures
        service_id(service_of(id)) == id,
        forall|s: Service| service_id(s) == id ==> s == service_of(id),
{
    assert forall|s: Service| service_id(s) == id implies s == service_of(id) by {
        lemma_id_in_range(s);
    }
}

/// The set of identifiers in use is exactly `FIRST_ID..=LAST_ID`.
pub proof fn lemma_id_set()
    ensures
        Set::new(|id: nat| exists|s: Service| service_id(s) == id)
            == Set::new(|id: nat| FIRST_ID <= id <= LAST_ID),
{
    let used = Set::new(|id: nat| exists|s: Service| service_id(s) == id);
    let range = Set::new(|id: nat| FIRST_ID <= id <= LAST_ID);
    assert forall|id: nat| used.contains(id) <==> range.contains(id) by {
        if used.contains(id) {
            let s = choose|s: Service| service_id(s) == id;
            lemma_id_in_range(s);
        }
        if range.contains(id) {
            lemma_id_dense(id);
        }
    }
    assert(used =~= range);
}

} // verus!
