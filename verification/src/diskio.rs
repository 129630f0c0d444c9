//! The disk I/O execution engine's interface: queued directory-creation
//! and file-write operations, with two interchangeable strategies behind
//! one contract — every submitted item is eventually observed exactly
//! once, through `execute`, `completed` or `join`.  The immediate
//! strategy answers each item as it is submitted; the adaptive pool's
//! threads live outside this crate and are driven by the verified
//! policy of the scheduling module.

use vstd::prelude::*;

verus! {

/// The operation an item asks for.
#[derive(Debug)]
pub enum Kind {
    Directory,
    File(Vec<u8>),
}

/// One queued operation, with its timing and outcome once performed.
#[derive(Debug)]
pub struct Item {
    /// The path to operate on.
    pub full_path: String,
    /// The operation to perform.
    pub kind: Kind,
    /// When the operation started, in the caller's clock ticks.
    pub start: Option<u64>,
    /// How long the operation took to finish, in the same ticks.
    pub finish: Option<u64>,
    /// The length of the file, for files.
    pub size: Option<usize>,
    /// Whether the operation has succeeded; holds until it is performed.
    pub ok: bool,
    /// The mode to apply.
    pub mode: u32,
}

impl Item {
    pub fn make_dir(full_path: String, mode: u32) -> (r: Item)
        ensures
            r.full_path@ == full_path@,
            r.kind is Directory,
            r.start is None,
            r.finish is None,
            r.size is None,
            r.ok,
            r.mode == mode,
    {
        Item {
            full_path,
            kind: Kind::Directory,
            start: None,
            finish: None,
            size: None,
            ok: true,
            mode,
        }
    }

    pub fn write_file(full_path: String, content: Vec<u8>, mode: u32) -> (r: Item)
        ensures
            r.full_path@ == full_path@,
            r.kind matches Kind::File(c) && c@ == content@,
            r.start is None,
            r.finish is None,
            r.size matches Some(l) && l == content@.len(),
            r.ok,
            r.mode == mode,
    {
        let len = content.len();
        Item {
            full_path,
            kind: Kind::File(content),
            start: None,
            finish: None,
            size: Some(len),
            ok: true,
            mode,
        }
    }
}

/// A strategy for performing items.  `execute` accepts one item and
/// returns the items that are complete now, possibly including earlier
/// queued ones under backpressure; `join` drains everything still
/// outstanding; `completed` hands over what is already finished without
/// blocking.  The accounting law every strategy obeys: each submitted
/// item is handed back exactly once through one of the three.
pub trait Executor {
    /// How many submitted items have not been handed back yet.
    spec fn outstanding(&self) -> int;

    fn execute(&mut self, item: Item) -> (r: Vec<Item>)
        requires
            old(self).outstanding() >= 0,
        ensures
            final(self).outstanding() == old(self).outstanding() + 1 - r@.len(),
            r@.len() <= old(self).outstanding() + 1,
    ;

    fn join(&mut self) -> (r: Vec<Item>)
        requires
            old(self).outstanding() >= 0,
        ensures
            final(self).outstanding() == 0,
            r@.len() == old(self).outstanding(),
    ;

    fn completed(&mut self) -> (r: Vec<Item>)
        requires
            old(self).outstanding() >= 0,
        ensures
            final(self).outstanding() == old(self).outstanding() - r@.len(),
            r@.len() <= old(self).outstanding(),
    ;
}

/// The immediate strategy: each operation is answered on the calling
/// thread as it is submitted, so nothing is ever outstanding.
#[derive(Debug)]
pub struct ImmediateUnpacker {}

impl ImmediateUnpacker {
    pub fn new() -> (r: ImmediateUnpacker)
        ensures
            r == (ImmediateUnpacker {}),
    {
        ImmediateUnpacker {}
    }

    /// The item handed in comes straight back as the one complete item.
    pub fn dispatch(&mut self, item: Item) -> (r: Vec<Item>)
        ensures
            r@.len() == 1,
            r@[0] == item,
    {
        let mut v: Vec<Item> = Vec::new();
        v.push(item);
        v
    }

    /// Nothing is ever left outstanding.
    pub fn drain(&mut self) -> (r: Vec<Item>)
        ensures
            r@.len() == 0,
    {
        Vec::new()
    }
}

impl Executor for ImmediateUnpacker {
    /// Nothing is ever in flight: every item comes back as it goes in.
    open spec fn outstanding(&self) -> int {
        0
    }

    fn execute(&mut self, item: Item) -> (r: Vec<Item>) {
        self.dispatch(item)
    }

    fn join(&mut self) -> (r: Vec<Item>) {
        self.drain()
    }

    fn completed(&mut self) -> (r: Vec<Item>) {
        self.drain()
    }
}

/// The strategy the configuration picks: the environment setting
/// `disabled` forces the immediate one; a thread count picks a pool of
/// that size; anything else (or no setting) leaves the default pool.
#[derive(Debug, PartialEq, Eq, Structural)]
pub enum ExecutorChoice {
    Immediate,
    WithThreads(usize),
    DefaultThreaded,
}

/// Decides the strategy from the worker-count setting the caller read.
pub fn executor_choice(setting: Option<&str>) -> (r: ExecutorChoice)
    ensures
        match setting {
            Some(s) => if s@ == "disabled"@ {
                r == ExecutorChoice::Immediate
            } else if s@.len() > 0 && crate::download::all_digits(s@)
                && crate::download::dec_value(s@) <= usize::MAX {
                r matches ExecutorChoice::WithThreads(n)
                    && n == crate::download::dec_value(s@)
            } else {
                r == ExecutorChoice::DefaultThreaded
            },
            None => r == ExecutorChoice::DefaultThreaded,
        },
{
    match setting {
        Some(s) => {
            if crate::strutil::str_eq_str(s, "disabled") {
                ExecutorChoice::Immediate
            } else {
                match crate::download::parse_u64(s) {
                    Some(n) => {
                        if n <= (usize::MAX as u64) {
                            ExecutorChoice::WithThreads(n as usize)
                        } else {
                            ExecutorChoice::DefaultThreaded
                        }
                    },
                    None => ExecutorChoice::DefaultThreaded,
                }
            }
        },
        None => ExecutorChoice::DefaultThreaded,
    }
}

/// The submission ledger of a deferring strategy: how many items have
/// been handed in and how many handed back.  A strategy that performs
/// work elsewhere settles its account here, and the ledger's invariant
/// is that nothing is ever handed back that was not handed in.
#[derive(Debug)]
pub struct WorkLedger {
    pub submitted: u64,
    pub returned: u64,
}

impl WorkLedger {
    pub open spec fn wf(&self) -> bool {
        self.returned <= self.submitted
    }

    /// How many items are in flight or queued.
    pub open spec fn outstanding(&self) -> int {
        self.submitted - self.returned
    }

    pub fn new() -> (r: WorkLedger)
        ensures
            r.wf(),
            r.outstanding() == 0,
    {
        WorkLedger { submitted: 0, returned: 0 }
    }

    pub fn submit(&mut self) -> (r: Result<(), ()>)
        requires
            old(self).wf(),
        ensures
            final(self).wf(),
            r is Ok ==> final(self).outstanding() == old(self).outstanding() + 1,
            r is Err ==> *final(self) == *old(self),
    {
        if self.submitted == u64::MAX {
            return Err(());
        }
        self.submitted = self.submitted + 1;
        Ok(())
    }

    /// Accounts for a batch of items handed back; a batch larger than
    /// what is outstanding cannot be booked.
    pub fn give_back(&mut self, count: u64) -> (r: Result<(), ()>)
        requires
            old(self).wf(),
        ensures
            final(self).wf(),
            r is Ok <==> count <= old(self).outstanding(),
            r is Ok ==> final(self).outstanding() == old(self).outstanding() - count,
            r is Err ==> *final(self) == *old(self),
    {
        if count > self.submitted - self.returned {
            return Err(());
        }
        self.returned = self.returned + count;
        Ok(())
    }

    /// After a drain every submitted item has been observed.
    pub fn drained(&self) -> (r: bool)
        requires
            self.wf(),
        ensures
            r == (self.outstanding() == 0),
    {
        self.returned == self.submitted
    }
}

} // verus!
