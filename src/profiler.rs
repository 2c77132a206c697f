use vstd::prelude::*;
use vstd::string::StrSliceExecFns;
use vstd::string::StringExecFns;

verus! {

/// Whether a span is the root of the profile tags of its thread: it has no
/// active parent, or its parent lives in another process.
pub open spec fn is_root_span_spec(has_parent: bool, parent_is_remote: bool) -> bool {
    !has_parent || parent_is_remote
}

pub fn is_root_span(has_parent: bool, parent_is_remote: bool) -> (r: bool)
    ensures
        r == is_root_span_spec(has_parent, parent_is_remote),
{
    !has_parent || parent_is_remote
}

/// Span processor that tags the running profiler agent with the id of each
/// root span. It holds at most one agent, of type `A`, created on first use
/// and removed on teardown.
pub struct PyroscopeSpanProcessor<A> {
    agent: Option<A>,
}

impl<A> PyroscopeSpanProcessor<A> {
    /// The agent held, if any.
    pub closed spec fn view(&self) -> Option<A> {
        self.agent
    }

    pub fn new() -> (r: Self)
        ensures
            r.view() is None,
    {
        PyroscopeSpanProcessor { agent: None }
    }

    /// True when no agent is held yet, so that one has to be created.
    pub fn needs_agent(&self) -> (r: bool)
        ensures
            r == (self.view() is None),
    {
        self.agent.is_none()
    }

    /// Creates the agent with `make` when none is held yet; an agent already
    /// held stays and `make` is not called.
    pub fn create_first_agent<F: FnOnce() -> A>(&mut self, make: F)
        requires
            make.requires(()),
        ensures
            old(self).view() is Some ==> final(self).view() == old(self).view(),
            old(self).view() is None ==> exists|a: A|
                make.ensures((), a) && final(self).view() == Some(a),
    {
        if self.agent.is_none() {
            let a = make();
            self.agent = Some(a);
        }
    }

    /// Keeps `a` as the agent when none is held; otherwise the agent
    /// already held stays and `a` is handed back.
    pub fn install_agent(&mut self, a: A) -> (r: Option<A>)
        ensures
            old(self).view() is None ==> final(self).view() == Some(a) && r is None,
            old(self).view() is Some ==> final(self).view() == old(self).view() && r == Some(a),
    {
        if self.agent.is_none() {
            self.agent = Some(a);
            None
        } else {
            Some(a)
        }
    }

    /// Removes and returns the agent held, if any.
    pub fn remove_agent_if_present(&mut self) -> (r: Option<A>)
        ensures
            r == old(self).view(),
            final(self).view() is None,
    {
        self.agent.take()
    }

    /// The agent held, if any.
    pub fn agent(&self) -> (r: Option<&A>)
        ensures
            r == match self.view() {
                Some(a) => Some(&a),
                None => None::<&A>,
            },
    {
        self.agent.as_ref()
    }
}

/// Position of the first `c` in `s` at or after `i`, or `s.len()`.
pub open spec fn find_from(s: Seq<char>, c: char, i: int) -> int
    decreases s.len() - i,
{
    if i < 0 || i >= s.len() {
        s.len() as int
    } else if s[i] == c {
        i
    } else {
        find_from(s, c, i + 1)
    }
}

/// The tag that one comma-separated piece gives: the text before its first
/// `=` as key and the rest as value; a piece without `=` gives none.
pub open spec fn tag_of(piece: Seq<char>) -> Seq<(Seq<char>, Seq<char>)> {
    let k = find_from(piece, '=', 0);
    if k < piece.len() {
        seq![(piece.subrange(0, k), piece.subrange(k + 1, piece.len() as int))]
    } else {
        Seq::empty()
    }
}

/// The tags of `s` from position `i` on, the current piece having begun at
/// `start`: pieces end at each comma and at the end of `s`.
pub open spec fn tags_from(s: Seq<char>, i: int, start: int) -> Seq<(Seq<char>, Seq<char>)>
    decreases s.len() - i,
{
    if i < 0 || i >= s.len() {
        tag_of(s.subrange(start, s.len() as int))
    } else if s[i] == ',' {
        tag_of(s.subrange(start, i)) + tags_from(s, i + 1, i + 1)
    } else {
        tags_from(s, i + 1, start)
    }
}

/// The `key=value` tags of a comma-separated list.
pub open spec fn tags_spec(s: Seq<char>) -> Seq<(Seq<char>, Seq<char>)> {
    tags_from(s, 0, 0)
}

pub open spec fn tags_view(v: Seq<(String, String)>) -> Seq<(Seq<char>, Seq<char>)> {
    v.map_values(|p: (String, String)| (p.0@, p.1@))
}

/// Splits one piece at its first `=`.
fn split_tag(piece: &str) -> (r: Option<(String, String)>)
    ensures
        match r {
            Some(p) => tag_of(piece@) == seq![(p.0@, p.1@)],
            None => tag_of(piece@) == Seq::<(Seq<char>, Seq<char>)>::empty(),
        },
{
    let n = piece.unicode_len();
    let mut k: usize = 0;
    while k < n
        invariant
            n == piece@.len(),
            k <= n,
            find_from(piece@, '=', 0) == find_from(piece@, '=', k as int),
        decreases n - k,
    {
        if piece.get_char(k) == '=' {
            let key = String::from_str(piece.substring_char(0, k));
            let value = String::from_str(piece.substring_char(k + 1, n));
            return Some((key, value));
        }
        k = k + 1;
    }
    None
}

/// The `key=value` tags of a comma-separated list, in order; pieces
/// without `=` are skipped.
pub fn parse_tags(s: &str) -> (r: Vec<(String, String)>)
    ensures
        tags_view(r@) == tags_spec(s@),
{
    let n = s.unicode_len();
    let mut out: Vec<(String, String)> = Vec::new();
    let mut start: usize = 0;
    let mut i: usize = 0;
    while i < n
        invariant
            n == s@.len(),
            start <= i <= n,
            tags_spec(s@) == tags_view(out@) + tags_from(s@, i as int, start as int),
        decreases n - i,
    {
        if s.get_char(i) == ',' {
            let ghost before = tags_view(out@);
            let ghost piece = s@.subrange(start as int, i as int);
            match split_tag(s.substring_char(start, i)) {
                Some(p) => {
                    out.push(p);
                    assert(tags_view(out@) =~= before + tag_of(piece));
                },
                None => {
                    assert(tags_view(out@) =~= before + tag_of(piece));
                },
            }
            assert(tags_spec(s@) =~= tags_view(out@) + tags_from(s@, i + 1, i + 1));
            start = i + 1;
        }
        i = i + 1;
    }
    let ghost before = tags_view(out@);
    let ghost piece = s@.subrange(start as int, n as int);
    match split_tag(s.substring_char(start, n)) {
        Some(p) => {
            out.push(p);
            assert(tags_view(out@) =~= before + tag_of(piece));
        },
        None => {
            assert(tags_view(out@) =~= before + tag_of(piece));
        },
    }
    out
}

/// Samples per second the profiler takes unless configured otherwise.
pub const DEFAULT_SAMPLE_RATE: u32 = 100;

pub open spec fn is_digit(c: char) -> bool {
    '0' <= c <= '9'
}

pub open spec fn digit_value(c: char) -> nat {
    (c as u32 - '0' as u32) as nat
}

/// The number that a sequence of decimal digits denotes.
pub open spec fn dec_value(s: Seq<char>) -> nat
    decreases s.len(),
{
    if s.len() == 0 {
        0
    } else {
        dec_value(s.drop_last()) * 10 + digit_value(s.last())
    }
}

/// The digits of a number text: the text without a leading `+`.
pub open spec fn number_digits(s: Seq<char>) -> Seq<char> {
    if s.len() > 0 && s[0] == '+' {
        s.subrange(1, s.len() as int)
    } else {
        s
    }
}

/// The `u32` that a text denotes in decimal: an optional `+` then at least
/// one digit, within range; `None` for any other text.
pub open spec fn parsed_u32(s: Seq<char>) -> Option<u32> {
    let d = number_digits(s);
    if d.len() > 0 && (forall|i: int| 0 <= i < d.len() ==> is_digit(#[trigger] d[i])) && dec_value(d)
        <= u32::MAX {
        Some(dec_value(d) as u32)
    } else {
        None
    }
}

proof fn lemma_dec_value_grows(s: Seq<char>, i: int, j: int)
    requires
        0 <= i <= j <= s.len(),
    ensures
        dec_value(s.subrange(0, i)) <= dec_value(s.subrange(0, j)),
    decreases j - i,
{
    if i < j {
        lemma_dec_value_grows(s, i, j - 1);
        assert(s.subrange(0, j).drop_last() =~= s.subrange(0, j - 1));
    }
}

/// Reads a decimal `u32`, as the standard library's parser does.
pub fn parse_u32(s: &str) -> (r: Option<u32>)
    ensures
        r == parsed_u32(s@),
{
    let n = s.unicode_len();
    let mut i: usize = 0;
    if n > 0 && s.get_char(0) == '+' {
        i = 1;
    }
    let ghost d = number_digits(s@);
    assert(d =~= s@.subrange(i as int, n as int));
    if i == n {
        return None;
    }
    let first = i;
    let mut acc: u32 = 0;
    while i < n
        invariant
            n == s@.len(),
            first <= i <= n,
            first < n,
            d == number_digits(s@),
            d == s@.subrange(first as int, n as int),
            forall|k: int| 0 <= k < i - first ==> is_digit(#[trigger] d[k]),
            acc == dec_value(d.subrange(0, i - first)),
        decreases n - i,
    {
        let c = s.get_char(i);
        if !('0' <= c && c <= '9') {
            assert(!is_digit(d[i - first]));
            return None;
        }
        let v: u32 = (c as u32) - ('0' as u32);
        assert(d[i - first] == c);
        assert(d.subrange(0, i + 1 - first).drop_last() =~= d.subrange(0, i - first));
        assert(d.subrange(0, i + 1 - first).last() == c);
        assert(dec_value(d.subrange(0, i + 1 - first)) == acc * 10 + v);
        if acc > 429_496_729 || (acc == 429_496_729 && v > 5) {
            proof {
                assert(acc * 10 + v > u32::MAX) by (nonlinear_arith)
                    requires
                        acc > 429_496_729 || (acc == 429_496_729 && v > 5),
                {
                }
                lemma_dec_value_grows(d, i + 1 - first, d.len() as int);
                assert(d.subrange(0, d.len() as int) =~= d);
            }
            return None;
        }
        acc = acc * 10 + v;
        i = i + 1;
    }
    assert(d.subrange(0, n - first) =~= d);
    Some(acc)
}

/// The sample rate a configured text gives: its value when it reads as a
/// `u32`, else the default.
pub fn sample_rate_from(s: Option<&str>) -> (r: u32)
    ensures
        r == match s {
            Some(t) => match parsed_u32(t@) {
                Some(v) => v,
                None => DEFAULT_SAMPLE_RATE,
            },
            None => DEFAULT_SAMPLE_RATE,
        },
{
    match s {
        Some(t) => match parse_u32(t) {
            Some(v) => v,
            None => DEFAULT_SAMPLE_RATE,
        },
        None => DEFAULT_SAMPLE_RATE,
    }
}

/// Configuration of the profiling tracer.
pub struct ProfilerSettings {
    pub server_url: String,
    pub tracer_name: String,
    pub sample_rate: u32,
    pub stop_agent_on_dispose: bool,
    pub tags: Vec<(String, String)>,
}

impl Default for ProfilerSettings {
    fn default() -> (r: ProfilerSettings)
        ensures
            r.server_url@ == "http://localhost:4040"@,
            r.tracer_name@ == "gst.pyroscope"@,
            r.sample_rate == DEFAULT_SAMPLE_RATE,
            r.stop_agent_on_dispose,
            r.tags@.len() == 0,
    {
        ProfilerSettings {
            server_url: String::from_str("http://localhost:4040"),
            tracer_name: String::from_str("gst.pyroscope"),
            sample_rate: DEFAULT_SAMPLE_RATE,
            stop_agent_on_dispose: true,
            tags: Vec::new(),
        }
    }
}

impl ProfilerSettings {
    /// Replaces the extra tags by those of the comma-separated `key=value`
    /// list `v`.
    pub fn set_tags_param(&mut self, v: &str)
        ensures
            tags_view(final(self).tags@) == tags_spec(v@),
            final(self).server_url == old(self).server_url,
            final(self).tracer_name == old(self).tracer_name,
            final(self).sample_rate == old(self).sample_rate,
            final(self).stop_agent_on_dispose == old(self).stop_agent_on_dispose,
    {
        self.tags = parse_tags(v);
    }
}

/// Whether adding an element to a bin starts the profiler agent: only a
/// successful addition to a pipeline does, when no agent runs yet.
pub fn should_start_agent(success: bool, bin_is_pipeline: bool, agent_running: bool) -> (r: bool)
    ensures
        r == (success && bin_is_pipeline && !agent_running),
{
    success && bin_is_pipeline && !agent_running
}

} // verus!
