use vstd::prelude::*;
use vstd::string::StringExecFns;

verus! {

/// Name shown for an element that cannot be found.
pub open spec fn unknown_name() -> Seq<char> {
    seq!['u', 'n', 'k', 'n', 'o', 'w', 'n']
}

/// Whether pushing on a pad starts a new trace span: only a source pad with
/// a linked peer starts one, and only when the peer has no span open yet.
pub fn should_start_span(pad_is_src: bool, has_peer: bool, peer_has_span: bool) -> (r: bool)
    ensures
        r == (pad_is_src && has_peer && !peer_has_span),
{
    pad_is_src && has_peer && !peer_has_span
}

/// Which context a new span gets as parent.
#[derive(Clone, Copy, Debug, PartialEq, Eq, Structural)]
pub enum ParentContext {
    /// The thread's current context.
    Current,
    /// The span context carried by the buffer, as a remote parent.
    BufferSpan,
    /// No context: no span is started.
    NoContext,
}

pub open spec fn parent_context_spec(
    has_active_span: bool,
    buffer_has_span: bool,
    pad_is_src: bool,
) -> ParentContext {
    if has_active_span {
        ParentContext::Current
    } else if buffer_has_span {
        ParentContext::BufferSpan
    } else if pad_is_src {
        ParentContext::Current
    } else {
        ParentContext::NoContext
    }
}

/// The parent of a new span: the active span when the thread has one, else
/// the span the buffer carries, else the current context on a source pad.
pub fn choose_parent_context(has_active_span: bool, buffer_has_span: bool, pad_is_src: bool) -> (r:
    ParentContext)
    ensures
        r == parent_context_spec(has_active_span, buffer_has_span, pad_is_src),
{
    if has_active_span {
        ParentContext::Current
    } else if buffer_has_span {
        ParentContext::BufferSpan
    } else if pad_is_src {
        ParentContext::Current
    } else {
        ParentContext::NoContext
    }
}

/// Whether the push returning on a pad ends the span stored on it: only on
/// a sink pad that holds a span that is still recording.
pub fn should_end_span(pad_is_src: bool, has_span: bool, recording: bool) -> (r: bool)
    ensures
        r == (!pad_is_src && has_span && recording),
{
    !pad_is_src && has_span && recording
}

pub open spec fn name_or_unknown(n: Option<Seq<char>>) -> Seq<char> {
    match n {
        Some(s) => s,
        None => unknown_name(),
    }
}

pub open spec fn span_name_spec(
    src_element: Option<Seq<char>>,
    src_pad: Seq<char>,
    sink_pad: Seq<char>,
    sink_element: Option<Seq<char>>,
) -> Seq<char> {
    seq!['p', 'a', 'd', '-', 'p', 'u', 's', 'h', '-'] + name_or_unknown(src_element) + seq!['-']
        + src_pad + seq!['-'] + sink_pad + seq!['-'] + name_or_unknown(sink_element)
}

fn append_name_or_unknown(s: &mut String, n: Option<&str>)
    ensures
        final(s)@ == old(s)@ + name_or_unknown(
            match n {
                Some(x) => Some(x@),
                None => None,
            },
        ),
{
    match n {
        Some(x) => s.append(x),
        None => {
            s.append("unknown");
            proof {
                reveal_strlit("unknown");
            }
        },
    }
}

/// The name of the span of a push from `src_element.src_pad` to
/// `sink_element.sink_pad`: `pad-push-{src element}-{src pad}-{sink pad}-{sink element}`,
/// an element that cannot be found reading `unknown`.
pub fn span_name(
    src_element: Option<&str>,
    src_pad: &str,
    sink_pad: &str,
    sink_element: Option<&str>,
) -> (r: String)
    ensures
        r@ == span_name_spec(
            match src_element {
                Some(x) => Some(x@),
                None => None,
            },
            src_pad@,
            sink_pad@,
            match sink_element {
                Some(x) => Some(x@),
                None => None,
            },
        ),
{
    let mut s = String::from_str("pad-push-");
    append_name_or_unknown(&mut s, src_element);
    s.append("-");
    s.append(src_pad);
    s.append("-");
    s.append(sink_pad);
    s.append("-");
    append_name_or_unknown(&mut s, sink_element);
    proof {
        reveal_strlit("pad-push-");
        reveal_strlit("-");
        let se = match src_element {
            Some(x) => Some(x@),
            None => None,
        };
        let ke = match sink_element {
            Some(x) => Some(x@),
            None => None,
        };
        assert(s@ =~= span_name_spec(se, src_pad@, sink_pad@, ke));
    }
    s
}

} // verus!
