//! One-time initialization: a tri-state tag guards a value that is written
//! exactly once, by the caller that moves the tag out of `Uninit`.

use vstd::prelude::*;

verus! {

/// The tag of a once-cell. It only ever moves forward:
/// `Uninit`, then `Running`, then `Init`.
#[derive(Clone, Copy, Debug, PartialEq, Eq, Structural)]
pub enum OnceState {
    /// Nobody has started to initialize.
    Uninit,
    /// One caller is running the initializer; the storage is not to be read.
    Running,
    /// The value is written and published.
    Init,
}

impl OnceState {
    /// The word that stands for this state in the atomic tag.
    pub open spec fn spec_tag(self) -> usize {
        match self {
            OnceState::Uninit => 0,
            OnceState::Running => 1,
            OnceState::Init => 2,
        }
    }

    /// The word that stands for this state in the atomic tag.
    #[verifier::when_used_as_spec(spec_tag)]
    pub fn tag(self) -> (tag: usize)
        ensures
            tag == self.spec_tag(),
    {
        match self {
            OnceState::Uninit => 0,
            OnceState::Running => 1,
            OnceState::Init => 2,
        }
    }

    /// The state that the word `tag` stands for, if it stands for one.
    pub fn from_tag(tag: usize) -> (state: Option<OnceState>)
        ensures
            match state {
                Some(s) => s.spec_tag() == tag,
                None => tag > 2,
            },
    {
        if tag == 0 {
            Some(OnceState::Uninit)
        } else if tag == 1 {
            Some(OnceState::Running)
        } else if tag == 2 {
            Some(OnceState::Init)
        } else {
            None
        }
    }
}

/// Where one caller of `init_once` stands, named by what it does next.
#[derive(Clone, Copy, Debug, PartialEq, Eq, Structural)]
pub enum InitPhase {
    /// Read the tag.
    Start,
    /// Compare-and-swap the tag from `Uninit` to `Running`.
    Claiming,
    /// The swap succeeded: run the initializer and write its value.
    Initializing,
    /// Store `Init` in the tag, then return the value.
    Publishing,
    /// Somebody else is initializing: yield the core and read the tag again.
    Waiting,
    /// The tag was seen as `Init`: read the value.
    Reading,
    /// The caller has returned.
    Done,
}

impl InitPhase {
    /// In these phases the next step reads the tag (a load, or the old value
    /// that a compare-and-swap hands back).
    pub open spec fn observes(self) -> bool {
        self is Start || self is Claiming || self is Waiting
    }

    /// The phase that follows when a caller in an observing phase got `tag`.
    pub open spec fn spec_observe(self, tag: OnceState) -> InitPhase {
        match tag {
            OnceState::Uninit => if self is Start {
                InitPhase::Claiming
            } else {
                InitPhase::Initializing
            },
            OnceState::Running => InitPhase::Waiting,
            OnceState::Init => InitPhase::Reading,
        }
    }

    /// The phase that follows a step which reads nothing.
    pub open spec fn spec_proceed(self) -> InitPhase {
        match self {
            InitPhase::Initializing => InitPhase::Publishing,
            _ => InitPhase::Done,
        }
    }

    /// The phase after the caller's next step, taken with the tag at `tag`.
    pub open spec fn after_step(self, tag: OnceState) -> InitPhase {
        if self.observes() {
            self.spec_observe(tag)
        } else if self is Done {
            InitPhase::Done
        } else {
            self.spec_proceed()
        }
    }

    /// The tag after the next step of a caller in this phase, taken with the
    /// tag at `tag`: claiming moves it from `Uninit` to `Running`,
    /// publishing sets it to `Init`, and no other step writes it.
    pub open spec fn tag_after_step(self, tag: OnceState) -> OnceState {
        match self {
            InitPhase::Claiming => if tag is Uninit {
                OnceState::Running
            } else {
                tag
            },
            InitPhase::Publishing => OnceState::Init,
            _ => tag,
        }
    }

    /// Decides the next phase from the tag that this caller's access
    /// returned. A waiting caller never sees `Uninit`, because the tag only
    /// moves forward and the caller has already seen it past `Uninit`.
    #[verifier::when_used_as_spec(spec_observe)]
    pub fn observe(self, tag: OnceState) -> (next: InitPhase)
        requires
            self.observes(),
            !(self is Waiting && tag is Uninit),
        ensures
            next == self.spec_observe(tag),
    {
        match tag {
            OnceState::Uninit => match self {
                InitPhase::Start => InitPhase::Claiming,
                _ => InitPhase::Initializing,
            },
            OnceState::Running => InitPhase::Waiting,
            OnceState::Init => InitPhase::Reading,
        }
    }

    /// The phase after the caller has carried out a step that reads nothing:
    /// written the value, published the tag, or read the value.
    #[verifier::when_used_as_spec(spec_proceed)]
    pub fn proceed(self) -> (next: InitPhase)
        requires
            self is Initializing || self is Publishing || self is Reading,
        ensures
            next == self.spec_proceed(),
    {
        match self {
            InitPhase::Initializing => InitPhase::Publishing,
            _ => InitPhase::Done,
        }
    }
}

/// A call of `init_once` that is taken step by step: where it stands, and
/// its initializer as long as that has not run.
pub struct InitCall<F> {
    phase: InitPhase,
    init: Option<F>,
}

impl<F> InitCall<F> {
    /// Where the call stands.
    pub closed spec fn spec_phase(&self) -> InitPhase {
        self.phase
    }

    /// The initializer, as long as it has not run.
    pub closed spec fn initializer(&self) -> Option<F> {
        self.init
    }

    /// A call that has not run its initializer yet still has it.
    pub open spec fn wf(&self) -> bool {
        self.phase() is Start || self.phase() is Claiming || self.phase() is Initializing
            ==> self.initializer() is Some
    }

    /// A call that is about to read the tag for the first time, and that
    /// will run `f` if it wins.
    pub fn new(f: F) -> (call: Self)
        ensures
            call.wf(),
            call.phase() is Start,
            call.initializer() == Some(f),
    {
        InitCall { phase: InitPhase::Start, init: Some(f) }
    }

    /// Where the call stands.
    #[verifier::when_used_as_spec(spec_phase)]
    pub fn phase(&self) -> (phase: InitPhase)
        ensures
            phase == self.spec_phase(),
    {
        self.phase
    }
}

/// A value that is initialized at most once, by the first caller that asks.
#[derive(Debug)]
pub struct Once<T> {
    state: OnceState,
    val: Option<T>,
}

impl<T> Once<T> {
    /// The tag.
    pub closed spec fn spec_state(&self) -> OnceState {
        self.state
    }

    /// The tag.
    #[verifier::when_used_as_spec(spec_state)]
    pub fn state(&self) -> (state: OnceState)
        ensures
            state == self.spec_state(),
    {
        self.state
    }

    /// What the storage holds; it is uninitialized memory while this is
    /// `None`.
    pub closed spec fn storage(&self) -> Option<T> {
        self.val
    }

    /// The value, once the tag is `Init`.
    pub open spec fn value(&self) -> T {
        self.storage()->0
    }

    /// The storage is empty before anybody has started to initialize, and
    /// it holds the value once the tag is `Init`.
    pub open spec fn wf(&self) -> bool {
        &&& self.state() is Uninit ==> self.storage() is None
        &&& self.state() is Init ==> self.storage() is Some
    }

    /// Whether the call `call` can take its next step on this cell. In a
    /// race of calls that all started on the fresh cell, every call can at
    /// every moment.
    pub open spec fn admits<F: FnOnce() -> T>(&self, call: &InitCall<F>) -> bool {
        &&& call.phase() is Waiting ==> !(self.state() is Uninit)
        &&& call.phase() is Initializing ==> {
            &&& self.state() is Running
            &&& self.storage() is None
            &&& call_requires(call.initializer()->0, ())
        }
        &&& call.phase() is Publishing ==> self.state() is Running && self.storage() is Some
        &&& call.phase() is Reading ==> self.state() is Init
    }

    /// A cell in state `Uninit`.
    pub fn new() -> (once: Self)
        ensures
            once.wf(),
            once.state() is Uninit,
    {
        Once { state: OnceState::Uninit, val: None }
    }

    /// Takes the next atomic step of `call`: one access to the tag, the run
    /// of the initializer, or one access to the storage.
    fn advance<F: FnOnce() -> T>(&mut self, call: &mut InitCall<F>)
        requires
            old(self).wf(),
            old(call).wf(),
            old(self).admits(old(call)),
        ensures
            final(self).wf(),
            final(call).wf(),
            final(call).phase() == old(call).phase().after_step(old(self).state()),
            final(self).state() == old(call).phase().tag_after_step(old(self).state()),
            old(call).phase() is Initializing ==> {
                &&& final(self).storage() is Some
                &&& call_ensures(old(call).initializer()->0, (), final(self).value())
                &&& final(call).initializer() is None
            },
            !(old(call).phase() is Initializing) ==> {
                &&& final(self).storage() == old(self).storage()
                &&& final(call).initializer() == old(call).initializer()
            },
    {
        match call.phase {
            InitPhase::Start | InitPhase::Waiting => {
                call.phase = call.phase.observe(self.state);
            },
            InitPhase::Claiming => {
                let previous = self.state;
                if previous == OnceState::Uninit {
                    self.state = OnceState::Running;
                }
                call.phase = call.phase.observe(previous);
            },
            InitPhase::Initializing => {
                match call.init.take() {
                    Some(f) => {
                        self.val = Some(f());
                    },
                    None => {},
                }
                call.phase = call.phase.proceed();
            },
            InitPhase::Publishing => {
                self.state = OnceState::Init;
                call.phase = call.phase.proceed();
            },
            InitPhase::Reading => {
                call.phase = call.phase.proceed();
            },
            InitPhase::Done => {},
        }
    }

    /// Takes the next atomic step of `call` and hands out the value if that
    /// step is the one with which the call returns. Calls on one cell can
    /// take their steps in any order.
    pub fn step<F: FnOnce() -> T>(&mut self, call: &mut InitCall<F>) -> (returned: Option<&T>)
        requires
            old(self).wf(),
            old(call).wf(),
            old(self).admits(old(call)),
        ensures
            final(self).wf(),
            final(call).wf(),
            final(call).phase() == old(call).phase().after_step(old(self).state()),
            final(self).state() == old(call).phase().tag_after_step(old(self).state()),
            old(call).phase() is Initializing ==> {
                &&& final(self).storage() is Some
                &&& call_ensures(old(call).initializer()->0, (), final(self).value())
                &&& final(call).initializer() is None
            },
            !(old(call).phase() is Initializing) ==> {
                &&& final(self).storage() == old(self).storage()
                &&& final(call).initializer() == old(call).initializer()
            },
            returned is Some <==> final(call).phase() is Done && !(old(call).phase() is Done),
            returned matches Some(value) ==> *value == final(self).value(),
    {
        let last = call.phase == InitPhase::Publishing || call.phase == InitPhase::Reading;
        self.advance(call);
        if last {
            Some(self.force_get())
        } else {
            None
        }
    }

    /// Returns the value, running `f` to produce it if nobody has yet.
    ///
    /// A cell whose tag is at `Running` is ruled out: its initializer has
    /// started and never finished, which is not recovered from, and a
    /// caller would wait for the value for ever.
    pub fn init_once<F: FnOnce() -> T>(&mut self, f: F) -> (value: &T)
        requires
            old(self).wf(),
            !(old(self).state() is Running),
            old(self).state() is Uninit ==> call_requires(f, ()),
        ensures
            final(self).wf(),
            final(self).state() is Init,
            *value == final(self).value(),
            old(self).state() is Init ==> final(self).value() == old(self).value(),
            old(self).state() is Uninit ==> call_ensures(f, (), final(self).value()),
    {
        let ghost first = *self;
        let mut call = InitCall::new(f);
        while call.phase() != InitPhase::Done
            invariant
                self.wf(),
                call.wf(),
                self.admits(&call),
                !(first.state() is Running),
                first.state() is Uninit ==> call_requires(f, ()),
                match call.phase() {
                    InitPhase::Start => *self == first && call.initializer() == Some(f),
                    InitPhase::Claiming => self.state() is Uninit && first.state() is Uninit
                        && call.initializer() == Some(f),
                    InitPhase::Initializing => first.state() is Uninit && call.initializer()
                        == Some(f),
                    InitPhase::Publishing => first.state() is Uninit && call_ensures(
                        f,
                        (),
                        self.value(),
                    ),
                    InitPhase::Waiting => false,
                    InitPhase::Reading => first.state() is Init && self.storage()
                        == first.storage(),
                    InitPhase::Done => {
                        &&& self.state() is Init
                        &&& first.state() is Init ==> self.storage() == first.storage()
                        &&& first.state() is Uninit ==> call_ensures(f, (), self.value())
                    },
                },
            decreases
                    match call.phase() {
                        InitPhase::Start => 4nat,
                        InitPhase::Claiming => 3nat,
                        InitPhase::Initializing => 2nat,
                        InitPhase::Publishing => 1nat,
                        InitPhase::Reading => 1nat,
                        _ => 0nat,
                    },
        {
            self.advance(&mut call);
        }
        self.force_get()
    }

    /// The value, if it has been published.
    pub fn try_get(&self) -> (value: Option<&T>)
        requires
            self.wf(),
        ensures
            match value {
                Some(v) => self.state() is Init && *v == self.value(),
                None => !(self.state() is Init),
            },
    {
        match self.state {
            OnceState::Init => Some(self.force_get()),
            _ => None,
        }
    }

    /// The value of a cell that is known to be initialized.
    pub fn force_get(&self) -> (value: &T)
        requires
            self.wf(),
            self.state() is Init,
        ensures
            *value == self.value(),
    {
        self.val.as_ref().unwrap()
    }
}

impl<T> Default for Once<T> {
    fn default() -> (once: Self)
        ensures
            once.wf(),
            once.state() is Uninit,
    {
        Once::new()
    }
}

/// A value that builds itself on first use from the initializer it was made
/// with. The initializer is consumed by that call, so it runs at most once.
#[verifier::reject_recursive_types(T)]
pub struct Lazy<T, F = fn() -> T> where F: FnOnce() -> T {
    once: Once<T>,
    init: Option<F>,
}

impl<T, F> Lazy<T, F> where F: FnOnce() -> T {
    /// Whether the value has been built.
    pub closed spec fn is_init(&self) -> bool {
        self.once.state() is Init
    }

    /// The value, once it has been built.
    pub closed spec fn value(&self) -> T {
        self.once.value()
    }

    /// The initializer, as long as it has not run.
    pub closed spec fn initializer(&self) -> Option<F> {
        self.init
    }

    /// Either the value is there, or the initializer is, ready to be called.
    pub closed spec fn wf(&self) -> bool {
        &&& self.once.wf()
        &&& self.once.state() is Init || self.once.state() is Uninit
        &&& self.once.state() is Uninit ==> self.init is Some && call_requires(self.init->0, ())
        &&& self.once.state() is Init ==> self.init is None
    }

    /// A lazy value that `init` will build on first use.
    pub fn new(init: F) -> (lazy: Self)
        requires
            call_requires(init, ()),
        ensures
            lazy.wf(),
            !lazy.is_init(),
            lazy.initializer() == Some(init),
    {
        Lazy { once: Once::new(), init: Some(init) }
    }

    /// The value, built now if this is the first use.
    pub fn force(&mut self) -> (value: &T)
        requires
            old(self).wf(),
        ensures
            final(self).wf(),
            final(self).is_init(),
            final(self).initializer() is None,
            *value == final(self).value(),
            old(self).is_init() ==> final(self).value() == old(self).value(),
            !old(self).is_init() ==> call_ensures(
                old(self).initializer()->0,
                (),
                final(self).value(),
            ),
    {
        match self.init.take() {
            Some(init) => self.once.init_once(init),
            None => self.once.force_get(),
        }
    }
}

} // verus!
