use vstd::prelude::*;
use vstd::arithmetic::div_mod::lemma_mod_mod;

use crate::config::Config;

verus! {

/// One interval of the cadence, with its length in minutes.
#[derive(Copy, Clone, Debug, PartialEq, Eq, Structural)]
pub enum Event {
    Pomodoro(u64),
    ShortBreak(u64),
    LongBreak(u64),
}

/// The decimal digit for `d`, below ten.
pub open spec fn digit_char(d: nat) -> char {
    if d == 0 { '0' } else if d == 1 { '1' } else if d == 2 { '2' } else if d == 3 { '3' }
    else if d == 4 { '4' } else if d == 5 { '5' } else if d == 6 { '6' } else if d == 7 { '7' }
    else if d == 8 { '8' } else { '9' }
}

/// `n` written in decimal, without leading zeros.
pub open spec fn decimal(n: nat) -> Seq<char>
    decreases n,
{
    if n < 10 {
        seq![digit_char(n)]
    } else {
        decimal(n / 10).push(digit_char(n % 10))
    }
}

/// The summary of a run that has gone through `n` intervals.
pub open spec fn pomodoro_count_message(n: nat) -> Seq<char> {
    if n == 0 {
        "nothing"@
    } else if n <= 2 {
        "1 pomodoro"@
    } else {
        decimal((n + 1) / 2) + " pomodoros"@
    }
}

impl Event {
    pub open spec fn minutes_of(self) -> nat {
        match self {
            Event::Pomodoro(d) => d as nat,
            Event::ShortBreak(d) => d as nat,
            Event::LongBreak(d) => d as nat,
        }
    }

    pub open spec fn name_of(self) -> Seq<char> {
        match self {
            Event::Pomodoro(_) => "Pomodoro"@,
            Event::ShortBreak(_) => "Short break"@,
            Event::LongBreak(_) => "Long break"@,
        }
    }

    pub open spec fn start_confirmation_of(self) -> Seq<char> {
        match self {
            Event::Pomodoro(_) => "Ready to start a pomodoro?"@,
            Event::ShortBreak(_) => "Start a short break?"@,
            Event::LongBreak(_) => "Start a long break?"@,
        }
    }

    pub open spec fn notification_body_of(self) -> Seq<char> {
        match self {
            Event::Pomodoro(_) => "Take a break"@,
            Event::ShortBreak(_) => "Ready for another pomodoro?"@,
            Event::LongBreak(_) => "Ready for another pomodoro?"@,
        }
    }

    /// Length of the event in minutes.
    pub fn minutes(&self) -> (r: u64)
        ensures
            r == self.minutes_of(),
    {
        match self {
            Event::Pomodoro(d) => *d,
            Event::ShortBreak(d) => *d,
            Event::LongBreak(d) => *d,
        }
    }

    /// Duration of event in **seconds**
    pub fn duration(&self) -> (r: u64)
        requires
            self.minutes_of() * 60 <= u64::MAX,
        ensures
            r == self.minutes_of() * 60,
    {
        self.minutes() * 60
    }

    /// Whether the event is over once `elapsed_secs` seconds have passed since it began.
    pub fn is_over(&self, elapsed_secs: u64) -> (r: bool)
        requires
            self.minutes_of() * 60 <= u64::MAX,
        ensures
            r == (elapsed_secs >= self.minutes_of() * 60),
    {
        elapsed_secs >= self.duration()
    }

    pub fn message_name(&self) -> (r: &str)
        ensures
            r@ == self.name_of(),
    {
        match self {
            Event::Pomodoro(_) => "Pomodoro",
            Event::ShortBreak(_) => "Short break",
            Event::LongBreak(_) => "Long break",
        }
    }

    pub fn message_start_confirmation(&self) -> (r: &str)
        ensures
            r@ == self.start_confirmation_of(),
    {
        match self {
            Event::Pomodoro(_) => "Ready to start a pomodoro?",
            Event::ShortBreak(_) => "Start a short break?",
            Event::LongBreak(_) => "Start a long break?",
        }
    }

    /// The title of the notification sent when the event is over.
    pub fn message_finished(&self) -> (r: String)
        ensures
            r@ == self.name_of() + " finished"@,
    {
        let mut title = self.message_name().to_owned();
        title.append(" finished");
        title
    }

    /// The body of the notification sent when the event is over.
    pub fn message_notification_body(&self) -> (r: &str)
        ensures
            r@ == self.notification_body_of(),
    {
        match self {
            Event::Pomodoro(_) => "Take a break",
            Event::ShortBreak(_) => "Ready for another pomodoro?",
            Event::LongBreak(_) => "Ready for another pomodoro?",
        }
    }
}

fn digit_str(d: u64) -> (r: &'static str)
    requires
        d < 10,
    ensures
        r@ == seq![digit_char(d as nat)],
{
    proof {
        reveal_strlit("0");
        reveal_strlit("1");
        reveal_strlit("2");
        reveal_strlit("3");
        reveal_strlit("4");
        reveal_strlit("5");
        reveal_strlit("6");
        reveal_strlit("7");
        reveal_strlit("8");
        reveal_strlit("9");
    }
    if d == 0 { "0" } else if d == 1 { "1" } else if d == 2 { "2" } else if d == 3 { "3" }
    else if d == 4 { "4" } else if d == 5 { "5" } else if d == 6 { "6" } else if d == 7 { "7" }
    else if d == 8 { "8" } else { "9" }
}

/// Appends `n` in decimal to `s`.
fn push_decimal(s: &mut String, n: u64)
    ensures
        final(s)@ == old(s)@ + decimal(n as nat),
    decreases n,
{
    if n >= 10 {
        push_decimal(s, n / 10);
    }
    s.append(digit_str(n % 10));
    proof {
        assert(old(s)@ + decimal(n as nat) =~= s@);
    }
}

/// The number of intervals in one cycle: `repetition` pomodoro/break pairs.
pub open spec fn cycle_length(c: Config) -> int {
    2 * c.repetition.unwrap() as int
}

/// The interval at 0-based position `n` of the sequence that `c` describes.
pub open spec fn event_at(c: Config, n: nat) -> Event {
    let set = cycle_length(c);
    if n as int % set == set - 1 {
        Event::LongBreak(c.duration_long_break.unwrap())
    } else if n % 2 == 1 {
        Event::ShortBreak(c.duration_short_break.unwrap())
    } else {
        Event::Pomodoro(c.duration_pomodoro.unwrap())
    }
}

/// Produces the intervals of the pomodoro cadence one at a time, without end.
pub struct EventStream {
    duration_pomodoro: u64,
    duration_short_break: u64,
    duration_long_break: u64,
    repetition: i32,
    /// The number of intervals produced so far, modulo the cycle length.
    position: u64,
    /// The number of intervals produced so far.
    count: Ghost<nat>,
}

impl View for EventStream {
    /// The configuration the stream was built from, and how many intervals it has produced.
    type V = (Config, nat);

    closed spec fn view(&self) -> (Config, nat) {
        (
            Config {
                duration_pomodoro: Some(self.duration_pomodoro),
                duration_short_break: Some(self.duration_short_break),
                duration_long_break: Some(self.duration_long_break),
                repetition: Some(self.repetition),
            },
            self.count@,
        )
    }
}

impl EventStream {
    pub closed spec fn wf(&self) -> bool {
        &&& self.duration_pomodoro > 0
        &&& self.duration_short_break > 0
        &&& self.duration_long_break > 0
        &&& self.repetition > 0
        &&& self.position as int == self.count@ as int % (2 * self.repetition as int)
    }

    /// A well-formed stream runs on a resolved configuration.
    pub proof fn lemma_resolved(&self)
        requires
            self.wf(),
        ensures
            self@.0.resolved(),
    {
    }

    /// A fresh stream over `config`, before its first interval.
    pub fn new(config: Config) -> (r: Self)
        requires
            config.resolved(),
        ensures
            r.wf(),
            r@ == (config, 0nat),
    {
        proof {
            vstd::arithmetic::div_mod::lemma_small_mod(0, 2 * config.repetition.unwrap() as nat);
        }
        EventStream {
            duration_pomodoro: config.duration_pomodoro.unwrap(),
            duration_short_break: config.duration_short_break.unwrap(),
            duration_long_break: config.duration_long_break.unwrap(),
            repetition: config.repetition.unwrap(),
            position: 0,
            count: Ghost(0),
        }
    }

    /// The summary of a run that has gone through `n` intervals, counted from one:
    /// every other interval, from the first on, is a pomodoro.
    pub fn message_count_pomodoro(n: usize) -> (r: String)
        ensures
            r@ == pomodoro_count_message(n as nat),
    {
        if n == 0 {
            "nothing".to_owned()
        } else if n < 3 {
            "1 pomodoro".to_owned()
        } else {
            let mut text = String::new();
            push_decimal(&mut text, (n / 2 + n % 2) as u64);
            text.append(" pomodoros");
            text
        }
    }

    /// The next interval of the cadence; there always is one.
    pub fn next(&mut self) -> (r: Option<Event>)
        requires
            old(self).wf(),
        ensures
            final(self).wf(),
            final(self)@.0 == old(self)@.0,
            final(self)@.1 == old(self)@.1 + 1,
            r == Some(event_at(old(self)@.0, old(self)@.1)),
    {
        let set: u64 = 2 * (self.repetition as u64);
        let position = self.position;
        proof {
            lemma_mod_mod(self.count@ as int, 2, self.repetition as int);
            lemma_next_position(self.count@ as int, set as int);
        }
        let event = if position == set - 1 {
            Event::LongBreak(self.duration_long_break)
        } else if position % 2 == 1 {
            Event::ShortBreak(self.duration_short_break)
        } else {
            Event::Pomodoro(self.duration_pomodoro)
        };
        self.position = if position + 1 == set { 0 } else { position + 1 };
        self.count = Ghost((self.count@ + 1) as nat);
        Some(event)
    }
}

impl EventStream {
    /// The next `k` intervals of the cadence, in order.
    pub fn take_events(&mut self, k: usize) -> (r: Vec<Event>)
        requires
            old(self).wf(),
        ensures
            final(self).wf(),
            final(self)@.0 == old(self)@.0,
            final(self)@.1 == old(self)@.1 + k,
            r@ == Seq::new(k as nat, |i: int| event_at(old(self)@.0, (old(self)@.1 + i) as nat)),
    {
        let mut events: Vec<Event> = Vec::new();
        let mut i: usize = 0;
        while i < k
            invariant
                i <= k,
                self.wf(),
                self@.0 == old(self)@.0,
                self@.1 == old(self)@.1 + i,
                events@ == Seq::new(i as nat, |j: int| event_at(old(self)@.0, (old(self)@.1 + j) as nat)),
            decreases k - i,
        {
            let event = self.next().unwrap();
            events.push(event);
            i = i + 1;
            assert(events@ =~= Seq::new(i as nat, |j: int| event_at(old(self)@.0, (old(self)@.1 + j) as nat)));
        }
        events
    }
}

proof fn lemma_next_position(n: int, set: int)
    requires
        n >= 0,
        set > 0,
    ensures
        (n + 1) % set == if n % set + 1 == set { 0 } else { n % set + 1 },
{
    vstd::arithmetic::div_mod::lemma_fundamental_div_mod(n, set);
    let q = n / set;
    let p = n % set;
    if p + 1 == set {
        assert(n + 1 == (q + 1) * set) by (nonlinear_arith)
            requires n == set * q + p, p + 1 == set;
        vstd::arithmetic::div_mod::lemma_mod_multiples_basic(q + 1, set);
    } else {
        assert(n + 1 == q * set + (p + 1)) by (nonlinear_arith)
            requires n == set * q + p;
        vstd::arithmetic::div_mod::lemma_mod_multiples_vanish(q, p + 1, set);
        vstd::arithmetic::div_mod::lemma_small_mod((p + 1) as nat, set as nat);
    }
}

/// The first `k` intervals of the sequence that `c` describes.
pub open spec fn prefix(c: Config, k: nat) -> Seq<Event> {
    Seq::new(k, |i: int| event_at(c, i as nat))
}

/// How many of the first `k` intervals of the sequence that `c` describes are pomodoros.
pub open spec fn pomodoros_in(c: Config, k: nat) -> nat
    decreases k,
{
    if k == 0 {
        0
    } else {
        pomodoros_in(c, (k - 1) as nat) + if event_at(c, (k - 1) as nat) is Pomodoro { 1nat } else { 0nat }
    }
}

/// Streams built from equal configurations agree on every prefix.
pub proof fn lemma_deterministic(a: Config, b: Config, k: nat)
    requires
        a == b,
    ensures
        prefix(a, k) == prefix(b, k),
{
}

/// The sequence repeats after each cycle of `2 * repetition` intervals.
pub proof fn lemma_cadence_periodic(c: Config, n: nat)
    requires
        c.resolved(),
    ensures
        event_at(c, n + cycle_length(c) as nat) == event_at(c, n),
{
    let set = cycle_length(c);
    let r = c.repetition.unwrap() as int;
    vstd::arithmetic::div_mod::lemma_mod_add_multiples_vanish(n as int, set);
    vstd::arithmetic::div_mod::lemma_mod_add_multiples_vanish(n as int, 2);
    assert((n + set) % 2 == (n + 2 * r) % 2);
    vstd::arithmetic::div_mod::lemma_mod_multiples_vanish(r, n as int, 2);
}

/// With one pomodoro per cycle, no short break ever comes.
pub proof fn lemma_single_repetition_no_short_break(c: Config, n: nat)
    requires
        c.resolved(),
        c.repetition == Some(1i32),
    ensures
        !(event_at(c, n) is ShortBreak),
{
}

/// Pomodoros stand exactly at the even positions: long breaks close a cycle of even length.
pub proof fn lemma_pomodoro_at_even(c: Config, n: nat)
    requires
        c.resolved(),
    ensures
        event_at(c, n) is Pomodoro <==> n % 2 == 0,
{
    let r = c.repetition.unwrap() as int;
    lemma_mod_mod(n as int, 2, r);
}

/// Of the first `k` intervals, `(k + 1) / 2` are pomodoros; so the summary of a run
/// that went through `k` intervals counts its pomodoros.
pub proof fn lemma_pomodoro_count(c: Config, k: nat)
    requires
        c.resolved(),
    ensures
        pomodoros_in(c, k) == (k + 1) / 2,
    decreases k,
{
    if k > 0 {
        lemma_pomodoro_count(c, (k - 1) as nat);
        lemma_pomodoro_at_even(c, (k - 1) as nat);
    }
}

} // verus!
