//! The lifecycle state of a Compose project, and the kinds of toast notice.
use vstd::prelude::*;

verus! {

/// What the manager knows of a Compose project.
#[derive(Clone, Copy, Debug, PartialEq, Eq, Structural)]
pub enum Status {
    Running,
    Stopped,
    Starting,
    Stopping,
    Pulling,
    Error,
    RuntimeUnavailable,
}

/// The kind of a toast notice.
#[derive(Clone, Copy, Debug, PartialEq, Eq, Structural)]
pub enum ToastState {
    Success,
    Error,
    Warning,
    Info,
}

/// A project is busy while it pulls, starts or stops.
pub open spec fn is_transitioning_spec(s: Status) -> bool {
    s == Status::Pulling || s == Status::Starting || s == Status::Stopping
}

impl Status {
    /// Whether an operation on the project is under way.
    pub fn is_transitioning(&self) -> (b: bool)
        ensures
            b == is_transitioning_spec(*self),
    {
        match self {
            Status::Pulling | Status::Starting | Status::Stopping => true,
            _ => false,
        }
    }

    /// Whether stopping the runtime must first bring the project down.
    pub fn needs_stop(&self) -> (b: bool)
        ensures
            b == (*self == Status::Running || is_transitioning_spec(*self)),
    {
        match self {
            Status::Running | Status::Starting | Status::Stopping | Status::Pulling => true,
            _ => false,
        }
    }
}

/// The status after a refresh reported `actual` for a project believed to be `current`,
/// and whether its pull progress is to be cleared.
///
/// A project in transition only leaves it for the state the transition aims at; an error
/// is kept while the project reports stopped; otherwise the reported status is taken.
pub open spec fn reconcile_spec(current: Status, actual: Status) -> (Status, bool) {
    match current {
        Status::Pulling | Status::Starting => if actual == Status::Running {
            (Status::Running, true)
        } else {
            (current, false)
        },
        Status::Stopping => if actual == Status::Stopped {
            (Status::Stopped, true)
        } else {
            (current, false)
        },
        _ => if current != Status::Error || actual != Status::Stopped {
            (actual, false)
        } else {
            (current, false)
        },
    }
}

pub fn reconcile_status(current: Status, actual: Status) -> (r: (Status, bool))
    ensures
        r == reconcile_spec(current, actual),
{
    match current {
        Status::Pulling | Status::Starting => {
            if actual == Status::Running {
                (Status::Running, true)
            } else {
                (current, false)
            }
        },
        Status::Stopping => {
            if actual == Status::Stopped {
                (Status::Stopped, true)
            } else {
                (current, false)
            }
        },
        _ => {
            if current != Status::Error || actual != Status::Stopped {
                (actual, false)
            } else {
                (current, false)
            }
        },
    }
}

/// Law: a refresh never moves a project in transition to anything but the state its
/// transition aims at, and never clears progress of a project that keeps its state.
pub proof fn law_refresh_respects_transitions(current: Status, actual: Status)
    ensures
        (current == Status::Pulling || current == Status::Starting) ==> (reconcile_spec(
            current,
            actual,
        ).0 == current || reconcile_spec(current, actual).0 == Status::Running),
        current == Status::Stopping ==> (reconcile_spec(current, actual).0 == current
            || reconcile_spec(current, actual).0 == Status::Stopped),
        reconcile_spec(current, actual).1 ==> reconcile_spec(current, actual).0 != current,
        (current == Status::Error && actual == Status::Stopped) ==> reconcile_spec(
            current,
            actual,
        ).0 == Status::Error,
{
}

/// Law: outside a transition, a refresh takes the status the runtime reports, except that
/// a failed project found stopped stays failed; a transition ends only when the runtime
/// reports its aim (running for a pull or start, stopped for a stop), and only then is the
/// pull progress cleared.
pub proof fn law_refresh_takes_reported_status(current: Status, actual: Status)
    ensures
        current != Status::Pulling && current != Status::Starting && current != Status::Stopping
            && !(current == Status::Error && actual == Status::Stopped) ==> reconcile_spec(
            current,
            actual,
        ) == (actual, false),
        (current == Status::Pulling || current == Status::Starting) && actual == Status::Running
            ==> reconcile_spec(current, actual) == (Status::Running, true),
        current == Status::Stopping && actual == Status::Stopped ==> reconcile_spec(
            current,
            actual,
        ) == (Status::Stopped, true),
        (current == Status::Pulling || current == Status::Starting) && actual != Status::Running
            ==> reconcile_spec(current, actual) == (current, false),
        current == Status::Stopping && actual != Status::Stopped ==> reconcile_spec(
            current,
            actual,
        ) == (current, false),
{
}


/// The statuses of a set of named projects, each name held once, in order of insertion.
pub struct StatusTable {
    names: Vec<String>,
    statuses: Vec<Status>,
}

/// The status recorded for `name`, if any.
pub open spec fn lookup_spec(t: Seq<(Seq<char>, Status)>, name: Seq<char>) -> Option<Status>
    decreases t.len(),
{
    if t.len() == 0 {
        None
    } else if t.last().0 == name {
        Some(t.last().1)
    } else {
        lookup_spec(t.drop_last(), name)
    }
}

/// No name occurs twice.
pub open spec fn distinct_names(t: Seq<(Seq<char>, Status)>) -> bool {
    forall|i: int, j: int| 0 <= i < j < t.len() ==> t[i].0 != t[j].0
}

impl View for StatusTable {
    type V = Seq<(Seq<char>, Status)>;

    closed spec fn view(&self) -> Seq<(Seq<char>, Status)> {
        Seq::new(self.statuses@.len(), |i: int| (self.names@[i]@, self.statuses@[i]))
    }
}

pub proof fn lemma_lookup(t: Seq<(Seq<char>, Status)>, name: Seq<char>)
    requires
        distinct_names(t),
    ensures
        lookup_spec(t, name) is None <==> (forall|i: int| 0 <= i < t.len() ==> t[i].0 != name),
        forall|i: int| 0 <= i < t.len() && t[i].0 == name ==> lookup_spec(t, name) == Some(t[i].1),
    decreases t.len(),
{
    if t.len() > 0 {
        let u = t.drop_last();
        assert(distinct_names(u));
        lemma_lookup(u, name);
        if t.last().0 != name {
            assert forall|i: int| 0 <= i < t.len() - 1 implies t[i] == u[i] by {}
        }
    }
}

impl StatusTable {
    #[verifier::type_invariant]
    spec fn well_formed(&self) -> bool {
        &&& self.names@.len() == self.statuses@.len()
        &&& forall|i: int, j: int|
            0 <= i < j < self.names@.len() ==> self.names@[i]@ != self.names@[j]@
    }

    pub fn new() -> (r: Self)
        ensures
            r@ == Seq::<(Seq<char>, Status)>::empty(),
    {
        let r = StatusTable { names: Vec::new(), statuses: Vec::new() };
        assert(r@ =~= Seq::<(Seq<char>, Status)>::empty());
        r
    }

    /// Names are never held twice.
    pub fn len(&self) -> (n: usize)
        ensures
            n == self@.len(),
            distinct_names(self@),
    {
        proof {
            use_type_invariant(self);
        }
        self.statuses.len()
    }

    pub fn is_empty(&self) -> (b: bool)
        ensures
            b == (self@.len() == 0),
    {
        proof {
            use_type_invariant(self);
        }
        self.statuses.len() == 0
    }

    fn position(&self, name: &str) -> (r: Option<usize>)
        ensures
            r matches Some(i) ==> i < self@.len() && self@[i as int].0 == name@,
            r is None ==> forall|i: int| 0 <= i < self@.len() ==> self@[i].0 != name@,
    {
        proof {
            use_type_invariant(self);
        }
        let mut i: usize = 0;
        while i < self.names.len()
            invariant
                i <= self.names@.len(),
                self.names@.len() == self.statuses@.len(),
                forall|k: int| 0 <= k < i ==> self.names@[k]@ != name@,
            decreases self.names.len() - i,
        {
            if crate::text::str_eq(self.names[i].as_str(), name) {
                return Some(i);
            }
            i = i + 1;
        }
        None
    }

    /// Records `status` for `name` unless `name` is already present; the first status
    /// recorded for a name stays.
    pub fn insert_if_absent(&mut self, name: &str, status: Status)
        ensures
            lookup_spec(old(self)@, name@) is Some ==> final(self)@ == old(self)@,
            lookup_spec(old(self)@, name@) is None ==> final(self)@ == old(self)@.push(
                (name@, status),
            ),
            distinct_names(final(self)@),
    {
        proof {
            use_type_invariant(&*self);
            lemma_lookup(self@, name@);
        }
        match self.position(name) {
            Some(_) => {},
            None => {
                let ghost before = self@;
                let mut taken = StatusTable::new();
                std::mem::swap(self, &mut taken);
                proof {
                    use_type_invariant(&taken);
                }
                assert(taken@ == before);
                let StatusTable { mut names, mut statuses } = taken;
                assert forall|k: int| 0 <= k < names@.len() implies names@[k]@ != name@ by {
                    assert(before[k].0 == names@[k]@);
                }
                names.push(crate::text::owned(name));
                statuses.push(status);
                *self = StatusTable { names, statuses };
                assert(self@ =~= before.push((name@, status)));
            },
        }
        proof {
            use_type_invariant(&*self);
        }
    }

    /// The status recorded for `name`.
    pub fn get(&self, name: &str) -> (r: Option<Status>)
        ensures
            r == lookup_spec(self@, name@),
    {
        proof {
            use_type_invariant(self);
            lemma_lookup(self@, name@);
        }
        match self.position(name) {
            Some(i) => Some(self.statuses[i]),
            None => None,
        }
    }

    /// Marks `name` running, unless it is absent or in error.
    pub fn mark_running(&mut self, name: &str)
        ensures
            final(self)@.len() == old(self)@.len(),
            forall|i: int|
                0 <= i < old(self)@.len() ==> #[trigger] final(self)@[i] == (old(self)@[i].0, if old(
                    self,
                )@[i].0 == name@ && old(self)@[i].1 != Status::Error {
                    Status::Running
                } else {
                    old(self)@[i].1
                }),
    {
        proof {
            use_type_invariant(&*self);
        }
        let ghost before = self@;
        match self.position(name) {
            Some(i) => {
                if self.statuses[i] != Status::Error {
                    let mut taken = StatusTable::new();
                    std::mem::swap(self, &mut taken);
                    proof {
                        use_type_invariant(&taken);
                    }
                    let StatusTable { names, mut statuses } = taken;
                    statuses.set(i, Status::Running);
                    *self = StatusTable { names, statuses };
                }
                assert forall|k: int| 0 <= k < before.len() && k != i implies before[k].0
                    != name@ by {
                    if k < i {
                    } else {
                    }
                }
            },
            None => {},
        }
    }

    /// Marks every project as in error.
    pub fn mark_all_error(&mut self)
        ensures
            final(self)@.len() == old(self)@.len(),
            forall|i: int|
                0 <= i < old(self)@.len() ==> #[trigger] final(self)@[i] == (
                    old(self)@[i].0,
                    Status::Error,
                ),
    {
        proof {
            use_type_invariant(&*self);
        }
        let mut i: usize = 0;
        let ghost before = self@;
        let mut taken = StatusTable::new();
        std::mem::swap(self, &mut taken);
        proof {
            use_type_invariant(&taken);
        }
        let StatusTable { names, mut statuses } = taken;
        while i < statuses.len()
            invariant
                i <= statuses@.len(),
                names@.len() == statuses@.len(),
                statuses@.len() == before.len(),
                forall|k: int| 0 <= k < before.len() ==> #[trigger] names@[k]@ == before[k].0,
                forall|k: int| 0 <= k < i ==> statuses@[k] == Status::Error,
                forall|k: int| i <= k < before.len() ==> statuses@[k] == before[k].1,
                forall|k: int, j: int| 0 <= k < j < names@.len() ==> names@[k]@ != names@[j]@,
            decreases statuses.len() - i,
        {
            statuses.set(i, Status::Error);
            i = i + 1;
        }
        *self = StatusTable { names, statuses };
    }

    /// The names and statuses, in order.
    pub fn entries(&self) -> (r: Vec<(String, Status)>)
        ensures
            r@.len() == self@.len(),
            forall|i: int|
                0 <= i < r@.len() ==> #[trigger] r@[i].0@ == self@[i].0 && r@[i].1 == self@[i].1,
    {
        proof {
            use_type_invariant(self);
        }
        let mut r: Vec<(String, Status)> = Vec::new();
        let mut i: usize = 0;
        while i < self.statuses.len()
            invariant
                i <= self.statuses@.len(),
                self.names@.len() == self.statuses@.len(),
                r@.len() == i,
                forall|k: int|
                    0 <= k < i ==> #[trigger] r@[k].0@ == self.names@[k]@ && r@[k].1
                        == self.statuses@[k],
            decreases self.statuses.len() - i,
        {
            r.push((self.names[i].clone(), self.statuses[i]));
            i = i + 1;
        }
        r
    }
}

} // verus!
