//! The bookkeeping of the in-memory mock transport: which command has a
//! handler, which handlers fire once, whether the mock is connected, and
//! the log of every command it received.  The handlers themselves are
//! closures that the caller keeps in slots; this registry says which slot
//! answers a command.

use vstd::prelude::*;
use crate::error::TransportError;
use crate::text::{chars_of, owned, range_is};

verus! {

/// The handler slot of each command: a later registration overrides an
/// earlier one.
pub open spec fn handler_map(s: Seq<(String, usize)>) -> Map<Seq<char>, usize>
    decreases s.len(),
{
    if s.len() == 0 {
        Map::empty()
    } else {
        handler_map(s.drop_last()).insert(s.last().0@, s.last().1)
    }
}

/// The commands named in `s`.
pub open spec fn name_set(s: Seq<String>) -> Set<Seq<char>>
    decreases s.len(),
{
    if s.len() == 0 {
        Set::empty()
    } else {
        name_set(s.drop_last()).insert(s.last()@)
    }
}

/// One log record: the command and its arguments.
pub open spec fn record_view(r: (String, Vec<String>)) -> (Seq<char>, Seq<Seq<char>>) {
    (r.0@, r.1@.map_values(|a: String| a@))
}

/// The arguments of a call, as texts.
pub open spec fn args_view(args: Seq<&str>) -> Seq<Seq<char>> {
    args.map_values(|a: &str| a@)
}

/// A registration found at `j` is the one that counts when no later one
/// names the same command.
proof fn lemma_handler_last(s: Seq<(String, usize)>, k: Seq<char>, j: int)
    requires
        0 <= j < s.len(),
        s[j].0@ == k,
        forall|m: int| j < m < s.len() ==> (#[trigger] s[m]).0@ != k,
    ensures
        handler_map(s).contains_key(k),
        handler_map(s)[k] == s[j].1,
    decreases s.len(),
{
    if j < s.len() - 1 {
        assert(s.drop_last()[j] == s[j]);
        assert forall|m: int| j < m < s.drop_last().len() implies (#[trigger] s.drop_last()[m]).0@
            != k by {
            assert(s.drop_last()[m] == s[m]);
        }
        lemma_handler_last(s.drop_last(), k, j);
        assert(s.last() == s[s.len() - 1]);
    }
}

/// A command no registration names has no handler.
proof fn lemma_handler_absent(s: Seq<(String, usize)>, k: Seq<char>)
    requires
        forall|m: int| 0 <= m < s.len() ==> (#[trigger] s[m]).0@ != k,
    ensures
        !handler_map(s).contains_key(k),
    decreases s.len(),
{
    if s.len() > 0 {
        assert forall|m: int| 0 <= m < s.drop_last().len() implies (#[trigger] s.drop_last()[m]).0@
            != k by {
            assert(s.drop_last()[m] == s[m]);
        }
        lemma_handler_absent(s.drop_last(), k);
        assert(s.last() == s[s.len() - 1]);
    }
}

/// A name in `s` at some position is in its set, and only those are.
proof fn lemma_name_set(s: Seq<String>, k: Seq<char>)
    ensures
        name_set(s).contains(k) <==> exists|m: int| 0 <= m < s.len() && (#[trigger] s[m])@ == k,
    decreases s.len(),
{
    if s.len() > 0 {
        lemma_name_set(s.drop_last(), k);
        if name_set(s).contains(k) {
            if s.last()@ == k {
                assert(s[s.len() - 1]@ == k);
            } else {
                let m = choose|m: int| 0 <= m < s.drop_last().len() && (#[trigger] s.drop_last()[m])@ == k;
                assert(s[m] == s.drop_last()[m]);
            }
        }
        if exists|m: int| 0 <= m < s.len() && (#[trigger] s[m])@ == k {
            let m = choose|m: int| 0 <= m < s.len() && (#[trigger] s[m])@ == k;
            if m < s.len() - 1 {
                assert(s.drop_last()[m] == s[m]);
            }
        }
    }
}

/// Whether `a` and `b` are the same text.
fn same_text(a: &str, b: &str) -> (r: bool)
    ensures
        r == (a@ == b@),
{
    let cs = chars_of(a);
    assert(cs@.subrange(0, cs.len() as int) =~= cs@);
    range_is(&cs, 0, cs.len(), b)
}

/// The slot registered for `k`.
fn lookup(s: &Vec<(String, usize)>, k: &str) -> (r: Option<usize>)
    ensures
        match r {
            Some(slot) => handler_map(s@).contains_key(k@) && handler_map(s@)[k@] == slot,
            None => !handler_map(s@).contains_key(k@),
        },
{
    let mut i = s.len();
    while i > 0
        invariant
            i <= s.len(),
            forall|m: int| i <= m < s.len() ==> (#[trigger] s@[m]).0@ != k@,
        decreases i,
    {
        if same_text(s[i - 1].0.as_str(), k) {
            proof {
                lemma_handler_last(s@, k@, i - 1);
            }
            return Some(s[i - 1].1);
        }
        i = i - 1;
    }
    proof {
        lemma_handler_absent(s@, k@);
    }
    None
}

/// `s` without the registrations of `k`.
fn without_handler(s: &Vec<(String, usize)>, k: &str) -> (r: Vec<(String, usize)>)
    ensures
        handler_map(r@) == handler_map(s@).remove(k@),
{
    let mut r: Vec<(String, usize)> = Vec::new();
    let mut i: usize = 0;
    assert(handler_map(r@) =~= handler_map(s@.take(0)).remove(k@));
    while i < s.len()
        invariant
            i <= s.len(),
            handler_map(r@) == handler_map(s@.take(i as int)).remove(k@),
        decreases s.len() - i,
    {
        let ghost old_r = r@;
        assert(s@.take(i + 1).drop_last() =~= s@.take(i as int));
        assert(s@.take(i + 1).last() == s@[i as int]);
        if !same_text(s[i].0.as_str(), k) {
            r.push((s[i].0.clone(), s[i].1));
            assert(r@.drop_last() =~= old_r);
            assert(handler_map(r@) =~= handler_map(s@.take(i + 1)).remove(k@));
        } else {
            assert(handler_map(r@) =~= handler_map(s@.take(i + 1)).remove(k@));
        }
        i = i + 1;
    }
    assert(s@.take(s.len() as int) =~= s@);
    r
}

/// Whether `k` is named in `s`.
fn names(s: &Vec<String>, k: &str) -> (r: bool)
    ensures
        r == name_set(s@).contains(k@),
{
    let mut i: usize = 0;
    while i < s.len()
        invariant
            i <= s.len(),
            forall|m: int| 0 <= m < i ==> (#[trigger] s@[m])@ != k@,
        decreases s.len() - i,
    {
        if same_text(s[i].as_str(), k) {
            proof {
                lemma_name_set(s@, k@);
            }
            return true;
        }
        i = i + 1;
    }
    proof {
        lemma_name_set(s@, k@);
    }
    false
}

/// `s` without `k`.
fn without_name(s: &Vec<String>, k: &str) -> (r: Vec<String>)
    ensures
        name_set(r@) == name_set(s@).remove(k@),
{
    let mut r: Vec<String> = Vec::new();
    let mut i: usize = 0;
    assert(name_set(r@) =~= name_set(s@.take(0)).remove(k@));
    while i < s.len()
        invariant
            i <= s.len(),
            name_set(r@) == name_set(s@.take(i as int)).remove(k@),
        decreases s.len() - i,
    {
        let ghost old_r = r@;
        assert(s@.take(i + 1).drop_last() =~= s@.take(i as int));
        assert(s@.take(i + 1).last() == s@[i as int]);
        if !same_text(s[i].as_str(), k) {
            r.push(s[i].clone());
            assert(r@.drop_last() =~= old_r);
            assert(name_set(r@) =~= name_set(s@.take(i + 1)).remove(k@));
        } else {
            assert(name_set(r@) =~= name_set(s@.take(i + 1)).remove(k@));
        }
        i = i + 1;
    }
    assert(s@.take(s.len() as int) =~= s@);
    r
}

/// The registry of the mock transport.
#[derive(Debug)]
pub struct MockRegistry {
    handlers: Vec<(String, usize)>,
    one_shot: Vec<String>,
    connected: bool,
    log: Vec<(String, Vec<String>)>,
    fallback: Option<usize>,
}

impl MockRegistry {
    /// The handler slot of each command.
    pub closed spec fn handlers(self) -> Map<Seq<char>, usize> {
        handler_map(self.handlers@)
    }

    /// The commands whose handler fires once.
    pub closed spec fn one_shots(self) -> Set<Seq<char>> {
        name_set(self.one_shot@)
    }

    /// The slot that answers a command with no handler of its own.
    pub closed spec fn catch_all(self) -> Option<usize> {
        self.fallback
    }

    /// Whether the mock is connected.
    pub closed spec fn is_open(self) -> bool {
        self.connected
    }

    /// Every command received while connected, in order.
    pub closed spec fn calls(self) -> Seq<(Seq<char>, Seq<Seq<char>>)> {
        self.log@.map_values(|r: (String, Vec<String>)| record_view(r))
    }

    /// A disconnected registry with no handlers and an empty log.
    pub fn new() -> (r: MockRegistry)
        ensures
            r.handlers() == Map::<Seq<char>, usize>::empty(),
            r.one_shots() == Set::<Seq<char>>::empty(),
            !r.is_open(),
            r.calls() == Seq::<(Seq<char>, Seq<Seq<char>>)>::empty(),
            r.catch_all() is None,
    {
        let r = MockRegistry {
            handlers: Vec::new(),
            one_shot: Vec::new(),
            connected: false,
            log: Vec::new(),
            fallback: None,
        };
        assert(r.calls() =~= Seq::<(Seq<char>, Seq<Seq<char>>)>::empty());
        r
    }

    /// Registers the handler in `slot` for `command`; it fires every time
    /// the command is sent.
    pub fn on(&mut self, command: &str, slot: usize)
        ensures
            final(self).handlers() == old(self).handlers().insert(command@, slot),
            final(self).one_shots() == old(self).one_shots(),
            final(self).is_open() == old(self).is_open(),
            final(self).calls() == old(self).calls(),
            final(self).catch_all() == old(self).catch_all(),
    {
        let mut h = without_handler(&self.handlers, command);
        let ghost before = h@;
        h.push((owned(command), slot));
        assert(h@.drop_last() =~= before);
        assert(handler_map(h@) =~= handler_map(self.handlers@).insert(command@, slot));
        self.handlers = h;
    }

    /// Registers the handler in `slot` for `command`; it fires on the
    /// next matching send and is then removed.
    pub fn one_shot(&mut self, command: &str, slot: usize)
        ensures
            final(self).handlers() == old(self).handlers().insert(command@, slot),
            final(self).one_shots() == old(self).one_shots().insert(command@),
            final(self).is_open() == old(self).is_open(),
            final(self).calls() == old(self).calls(),
            final(self).catch_all() == old(self).catch_all(),
    {
        self.on(command, slot);
        if !names(&self.one_shot, command) {
            let ghost before = self.one_shot@;
            self.one_shot.push(owned(command));
            assert(self.one_shot@.drop_last() =~= before);
        } else {
            proof {
                assert(name_set(self.one_shot@).insert(command@) =~= name_set(self.one_shot@));
            }
        }
    }

    /// Registers the handler in `slot` for every command that has no
    /// handler of its own; it fires every time.
    pub fn on_any(&mut self, slot: usize)
        ensures
            final(self).catch_all() == Some(slot),
            final(self).handlers() == old(self).handlers(),
            final(self).one_shots() == old(self).one_shots(),
            final(self).is_open() == old(self).is_open(),
            final(self).calls() == old(self).calls(),
    {
        self.fallback = Some(slot);
    }
}

/// `post` and `r` are what sending `command` with `args` makes of
/// `pre`.  A disconnected mock refuses the command and records nothing.
/// A connected one logs it; a one-shot handler is then removed; the
/// result is the command's handler slot, else the catch-all slot, or
/// `MockUnhandled` when there is neither.
pub open spec fn dispatch_step(
    pre: MockRegistry,
    command: Seq<char>,
    args: Seq<Seq<char>>,
    post: MockRegistry,
    r: Result<usize, TransportError>,
) -> bool {
    if !pre.is_open() {
        r == Err::<usize, TransportError>(TransportError::NotConnected) && post == pre
    } else {
        let one = pre.one_shots().contains(command);
        &&& post.is_open()
        &&& post.catch_all() == pre.catch_all()
        &&& post.calls() == pre.calls().push((command, args))
        &&& post.handlers() == (if one {
            pre.handlers().remove(command)
        } else {
            pre.handlers()
        })
        &&& post.one_shots() == (if one {
            pre.one_shots().remove(command)
        } else {
            pre.one_shots()
        })
        &&& match r {
            Ok(slot) => if pre.handlers().contains_key(command) {
                slot == pre.handlers()[command]
            } else {
                pre.catch_all() == Some(slot)
            },
            Err(e) => !pre.handlers().contains_key(command) && pre.catch_all() is None && (e matches TransportError::MockUnhandled(
                s,
            ) && s@ == command),
        }
    }
}

/// `post` is `pre` with the connection `open` or closed, and nothing
/// else changed.
pub open spec fn switched(pre: MockRegistry, post: MockRegistry, open: bool) -> bool {
    &&& post.is_open() == open
    &&& post.catch_all() == pre.catch_all()
    &&& post.handlers() == pre.handlers()
    &&& post.one_shots() == pre.one_shots()
    &&& post.calls() == pre.calls()
}

/// Owned copies of `args`.
fn owned_args(args: &[&str]) -> (r: Vec<String>)
    ensures
        r@.map_values(|a: String| a@) == args_view(args@),
{
    let mut r: Vec<String> = Vec::new();
    let mut i: usize = 0;
    while i < args.len()
        invariant
            i <= args.len(),
            r@.len() == i,
            forall|k: int| 0 <= k < i ==> (#[trigger] r@[k])@ == args@[k]@,
        decreases args.len() - i,
    {
        r.push(owned(args[i]));
        i = i + 1;
    }
    assert(r@.map_values(|a: String| a@) =~= args_view(args@));
    r
}

/// A copy of `v`.
fn copy_strings(v: &Vec<String>) -> (r: Vec<String>)
    ensures
        r@ == v@,
{
    let mut r: Vec<String> = Vec::new();
    let mut i: usize = 0;
    while i < v.len()
        invariant
            i <= v.len(),
            r@ == v@.take(i as int),
        decreases v.len() - i,
    {
        r.push(v[i].clone());
        assert(r@ =~= v@.take(i + 1));
        i = i + 1;
    }
    assert(v@.take(v.len() as int) =~= v@);
    r
}

impl MockRegistry {
    /// Opens the mock; idempotent.
    pub fn connect(&mut self)
        ensures
            switched(*old(self), *final(self), true),
    {
        self.connected = true;
    }

    /// Closes the mock; idempotent.
    pub fn disconnect(&mut self)
        ensures
            switched(*old(self), *final(self), false),
    {
        self.connected = false;
    }

    /// Whether the mock is connected.
    pub fn is_connected(&self) -> (r: bool)
        ensures
            r == self.is_open(),
    {
        self.connected
    }

    /// Every command received, in order.
    pub fn call_log(&self) -> (r: Vec<(String, Vec<String>)>)
        ensures
            r@.map_values(|x: (String, Vec<String>)| record_view(x)) == self.calls(),
    {
        let mut r: Vec<(String, Vec<String>)> = Vec::new();
        let mut i: usize = 0;
        while i < self.log.len()
            invariant
                i <= self.log.len(),
                r@.len() == i,
                forall|k: int| 0 <= k < i ==> record_view(#[trigger] r@[k]) == record_view(self.log@[k]),
            decreases self.log.len() - i,
        {
            let entry = (self.log[i].0.clone(), copy_strings(&self.log[i].1));
            r.push(entry);
            assert(record_view(r@[i as int]) == record_view(self.log@[i as int]));
            i = i + 1;
        }
        assert(r@.map_values(|x: (String, Vec<String>)| record_view(x)) =~= self.calls());
        r
    }

    /// Sends `command` with `args`: the slot of the handler that answers.
    pub fn dispatch(&mut self, command: &str, args: &[&str]) -> (r: Result<usize, TransportError>)
        ensures
            dispatch_step(*old(self), command@, args_view(args@), *final(self), r),
    {
        if !self.connected {
            return Err(TransportError::NotConnected);
        }
        let record = (owned(command), owned_args(args));
        let ghost old_log = self.log@;
        self.log.push(record);
        assert(self.log@.map_values(|x: (String, Vec<String>)| record_view(x)) =~= old_log.map_values(
            |x: (String, Vec<String>)| record_view(x),
        ).push((command@, args_view(args@))));
        let one = names(&self.one_shot, command);
        let handler = lookup(&self.handlers, command);
        if one {
            self.handlers = without_handler(&self.handlers, command);
            self.one_shot = without_name(&self.one_shot, command);
        }
        match handler {
            Some(slot) => Ok(slot),
            None => match self.fallback {
                Some(slot) => Ok(slot),
                None => Err(TransportError::MockUnhandled(owned(command))),
            },
        }
    }
}

/// A run of sends: `rs[i + 1]` and `xs[i]` are what sending `cs[i]`
/// with `args[i]` makes of `rs[i]`.
pub open spec fn sends(
    rs: Seq<MockRegistry>,
    cs: Seq<Seq<char>>,
    args: Seq<Seq<Seq<char>>>,
    xs: Seq<Result<usize, TransportError>>,
) -> bool {
    &&& rs.len() == cs.len() + 1
    &&& args.len() == cs.len()
    &&& xs.len() == cs.len()
    &&& forall|i: int|
        #![trigger xs[i]]
        0 <= i < cs.len() ==> dispatch_step(rs[i], cs[i], args[i], rs[i + 1], xs[i])
}

/// The records of the first `k` sends of a run.
pub open spec fn records(cs: Seq<Seq<char>>, args: Seq<Seq<Seq<char>>>, k: int) -> Seq<
    (Seq<char>, Seq<Seq<char>>),
> {
    Seq::new(k as nat, |i: int| (cs[i], args[i]))
}

proof fn lemma_log_prefix(
    rs: Seq<MockRegistry>,
    cs: Seq<Seq<char>>,
    args: Seq<Seq<Seq<char>>>,
    xs: Seq<Result<usize, TransportError>>,
    k: int,
)
    requires
        sends(rs, cs, args, xs),
        rs[0].is_open(),
        0 <= k <= cs.len(),
    ensures
        rs[k].is_open(),
        rs[k].calls() == rs[0].calls() + records(cs, args, k),
    decreases k,
{
    if k == 0 {
        assert(rs[0].calls() + records(cs, args, 0) =~= rs[0].calls());
    } else {
        lemma_log_prefix(rs, cs, args, xs, k - 1);
        assert(dispatch_step(rs[k - 1], cs[k - 1], args[k - 1], rs[k], xs[k - 1]));
        assert(rs[0].calls() + records(cs, args, k) =~= (rs[0].calls() + records(cs, args, k - 1)).push(
            (cs[k - 1], args[k - 1]),
        ));
    }
}

/// While connected, every send is logged, in the order sent, and the
/// mock stays connected.
pub proof fn lemma_every_send_logged(
    rs: Seq<MockRegistry>,
    cs: Seq<Seq<char>>,
    args: Seq<Seq<Seq<char>>>,
    xs: Seq<Result<usize, TransportError>>,
)
    requires
        sends(rs, cs, args, xs),
        rs[0].is_open(),
    ensures
        rs.last().is_open(),
        rs.last().calls() == rs[0].calls() + records(cs, args, cs.len() as int),
{
    lemma_log_prefix(rs, cs, args, xs, cs.len() as int);
}

proof fn lemma_persistent_prefix(
    rs: Seq<MockRegistry>,
    cs: Seq<Seq<char>>,
    args: Seq<Seq<Seq<char>>>,
    xs: Seq<Result<usize, TransportError>>,
    c: Seq<char>,
    k: int,
)
    requires
        sends(rs, cs, args, xs),
        rs[0].is_open(),
        rs[0].handlers().contains_key(c),
        !rs[0].one_shots().contains(c),
        0 <= k <= cs.len(),
    ensures
        rs[k].is_open(),
        rs[k].handlers().contains_key(c),
        rs[k].handlers()[c] == rs[0].handlers()[c],
        !rs[k].one_shots().contains(c),
    decreases k,
{
    if k > 0 {
        lemma_persistent_prefix(rs, cs, args, xs, c, k - 1);
        assert(dispatch_step(rs[k - 1], cs[k - 1], args[k - 1], rs[k], xs[k - 1]));
    }
}

/// A handler registered with `on` answers every send of its command: in
/// any run of sends while connected, each send of it reaches the
/// handler's slot.
pub proof fn lemma_persistent_handler_answers_every_send(
    rs: Seq<MockRegistry>,
    cs: Seq<Seq<char>>,
    args: Seq<Seq<Seq<char>>>,
    xs: Seq<Result<usize, TransportError>>,
    c: Seq<char>,
)
    requires
        sends(rs, cs, args, xs),
        rs[0].is_open(),
        rs[0].handlers().contains_key(c),
        !rs[0].one_shots().contains(c),
    ensures
        forall|i: int|
            0 <= i < cs.len() && cs[i] == c ==> #[trigger] xs[i] == Ok::<usize, TransportError>(
                rs[0].handlers()[c],
            ),
{
    assert forall|i: int| 0 <= i < cs.len() && cs[i] == c implies #[trigger] xs[i] == Ok::<
        usize,
        TransportError,
    >(rs[0].handlers()[c]) by {
        lemma_persistent_prefix(rs, cs, args, xs, c, i);
        assert(dispatch_step(rs[i], cs[i], args[i], rs[i + 1], xs[i]));
    }
}

proof fn lemma_one_shot_prefix(
    rs: Seq<MockRegistry>,
    cs: Seq<Seq<char>>,
    args: Seq<Seq<Seq<char>>>,
    xs: Seq<Result<usize, TransportError>>,
    c: Seq<char>,
    k: int,
)
    requires
        sends(rs, cs, args, xs),
        rs[0].is_open(),
        rs[0].catch_all() is None,
        rs[0].handlers().contains_key(c),
        rs[0].one_shots().contains(c),
        0 <= k <= cs.len(),
    ensures
        rs[k].is_open(),
        rs[k].catch_all() is None,
        !cs.take(k).contains(c) ==> rs[k].handlers().contains_key(c) && rs[k].handlers()[c]
            == rs[0].handlers()[c] && rs[k].one_shots().contains(c),
        cs.take(k).contains(c) ==> !rs[k].handlers().contains_key(c),
    decreases k,
{
    if k == 0 {
        assert(!cs.take(0).contains(c));
    } else {
        lemma_one_shot_prefix(rs, cs, args, xs, c, k - 1);
        assert(dispatch_step(rs[k - 1], cs[k - 1], args[k - 1], rs[k], xs[k - 1]));
        assert(cs.take(k) =~= cs.take(k - 1).push(cs[k - 1]));
        if cs.take(k).contains(c) {
            if !cs.take(k - 1).contains(c) {
                assert(cs[k - 1] == c) by {
                    let t = cs.take(k);
                    let j = choose|j: int| 0 <= j < t.len() && #[trigger] t[j] == c;
                    if j < k - 1 {
                        assert(cs.take(k - 1)[j] == c);
                    }
                }
            }
        } else {
            assert(cs.take(k)[k - 1] == cs[k - 1]);
            assert(cs[k - 1] != c);
            if cs.take(k - 1).contains(c) {
                let t = cs.take(k - 1);
                let j = choose|j: int| 0 <= j < t.len() && #[trigger] t[j] == c;
                assert(cs.take(k)[j] == c);
            }
        }
    }
}

/// A handler registered with `one_shot`, with no catch-all, answers the
/// first send of its command and no other: in any run of sends while
/// connected, the first send of it reaches the handler's slot and every
/// later one finds no handler.
pub proof fn lemma_one_shot_answers_first_send_only(
    rs: Seq<MockRegistry>,
    cs: Seq<Seq<char>>,
    args: Seq<Seq<Seq<char>>>,
    xs: Seq<Result<usize, TransportError>>,
    c: Seq<char>,
)
    requires
        sends(rs, cs, args, xs),
        rs[0].is_open(),
        rs[0].catch_all() is None,
        rs[0].handlers().contains_key(c),
        rs[0].one_shots().contains(c),
    ensures
        forall|i: int|
            0 <= i < cs.len() && cs[i] == c && !cs.take(i).contains(c) ==> #[trigger] xs[i] == Ok::<
                usize,
                TransportError,
            >(rs[0].handlers()[c]),
        forall|i: int|
            0 <= i < cs.len() && cs[i] == c && cs.take(i).contains(c) ==> (#[trigger] xs[i] matches Err(
                TransportError::MockUnhandled(s),
            ) && s@ == c),
{
    assert forall|i: int| 0 <= i < cs.len() && cs[i] == c && !cs.take(i).contains(c) implies #[trigger] xs[i]
        == Ok::<usize, TransportError>(rs[0].handlers()[c]) by {
        lemma_one_shot_prefix(rs, cs, args, xs, c, i);
        assert(dispatch_step(rs[i], cs[i], args[i], rs[i + 1], xs[i]));
    }
    assert forall|i: int| 0 <= i < cs.len() && cs[i] == c && cs.take(i).contains(c) implies (#[trigger] xs[i] matches Err(
        TransportError::MockUnhandled(s),
    ) && s@ == c) by {
        lemma_one_shot_prefix(rs, cs, args, xs, c, i);
        assert(dispatch_step(rs[i], cs[i], args[i], rs[i + 1], xs[i]));
    }
}

/// A catch-all handler answers every command that has no handler of its
/// own.
pub proof fn lemma_catch_all_answers(
    r0: MockRegistry,
    r1: MockRegistry,
    c: Seq<char>,
    a: Seq<Seq<char>>,
    x: Result<usize, TransportError>,
)
    requires
        dispatch_step(r0, c, a, r1, x),
        r0.is_open(),
        !r0.handlers().contains_key(c),
        r0.catch_all() is Some,
    ensures
        x == Ok::<usize, TransportError>(r0.catch_all()->0),
{
}

/// A disconnected mock refuses every command and records none.
pub proof fn lemma_disconnected_refuses(
    r0: MockRegistry,
    r1: MockRegistry,
    c: Seq<char>,
    a: Seq<Seq<char>>,
    x: Result<usize, TransportError>,
)
    requires
        dispatch_step(r0, c, a, r1, x),
        !r0.is_open(),
    ensures
        x == Err::<usize, TransportError>(TransportError::NotConnected),
        r1.calls() == r0.calls(),
{
}

/// Connecting and disconnecting are idempotent: doing either twice
/// leaves the mock as doing it once.
pub proof fn lemma_switch_idempotent(
    r0: MockRegistry,
    r1: MockRegistry,
    r2: MockRegistry,
    open: bool,
)
    requires
        switched(r0, r1, open),
        switched(r1, r2, open),
    ensures
        switched(r0, r2, open),
        r2.is_open() == r1.is_open(),
        r2.handlers() == r1.handlers(),
        r2.one_shots() == r1.one_shots(),
        r2.calls() == r1.calls(),
{
}

} // verus!
