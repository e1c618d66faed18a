//! HTML responses: what a rendered page, a failed render and a streamed
//! page are answered with.
use vstd::prelude::*;
use crate::text::{concat_str, string_of};

verus! {

/// The content type of every HTML response.
pub const HTML_CONTENT_TYPE: &'static str = "text/html; charset=utf-8";

/// An HTML response: status code, content type and body.
#[derive(Debug)]
pub struct HtmlResponse {
    pub status: u16,
    pub content_type: String,
    pub body: String,
}

/// The body that a failed render is answered with by default.
pub open spec fn default_error_body() -> Seq<char> {
    "<h1>500</h1><p>Rendering failed</p>"@
}

/// Whether a response is an HTML response with this status and body.
pub open spec fn is_html_response(r: HtmlResponse, status: u16, body: Seq<char>) -> bool {
    r.status == status && r.content_type@ == "text/html; charset=utf-8"@ && r.body@ == body
}

/// The default answer to a failed render: `500` with a short HTML body,
/// whatever the error.
pub fn default_error_mapper<E>(_error: &E) -> (r: (u16, String))
    ensures
        r.0 == 500,
        r.1@ == default_error_body(),
{
    (500, string_of("<h1>500</h1><p>Rendering failed</p>"))
}

/// An HTML response with the given status and body.
fn html_response(status: u16, body: String) -> (r: HtmlResponse)
    ensures
        is_html_response(r, status, body@),
{
    proof {
        reveal_strlit("text/html; charset=utf-8");
    }
    HtmlResponse { status, content_type: string_of(HTML_CONTENT_TYPE), body }
}

/// A full page: `200` with the rendered HTML.
pub fn render_page(fragment: String) -> (r: HtmlResponse)
    ensures
        is_html_response(r, 200, fragment@),
{
    html_response(200, fragment)
}

/// A partial page: `200` with the rendered HTML.
pub fn render_partial(fragment: String) -> (r: HtmlResponse)
    ensures
        is_html_response(r, 200, fragment@),
{
    html_response(200, fragment)
}

/// A render result as a response: the page when rendering succeeded, and
/// otherwise the status and body that `mapper` gives for the error.
pub fn render_result_with<E, F: FnOnce(&E) -> (u16, String)>(result: Result<String, E>, mapper: F) -> (r: HtmlResponse)
    requires
        result matches Err(e) ==> call_requires(mapper, (&e,)),
    ensures
        match result {
            Ok(fragment) => is_html_response(r, 200, fragment@),
            Err(e) => exists|out: (u16, String)| #[trigger]
                call_ensures(mapper, (&e,), out) && is_html_response(r, out.0, out.1@),
        },
{
    match result {
        Ok(fragment) => render_page(fragment),
        Err(error) => {
            let out = mapper(&error);
            let (status, body) = out;
            let r = html_response(status, body);
            assert(call_ensures(mapper, (&error,), out));
            r
        },
    }
}

/// A render result as a response, with failures answered by
/// `default_error_mapper`.
pub fn render_result<E>(result: Result<String, E>) -> (r: HtmlResponse)
    ensures
        match result {
            Ok(fragment) => is_html_response(r, 200, fragment@),
            Err(_) => is_html_response(r, 500, default_error_body()),
        },
{
    render_result_with(result, default_error_mapper)
}

/// The byte buffer that carries a chunk, known to Verus only by name.
#[verifier::external_type_specification]
#[verifier::external_body]
pub struct ExBytes(axum::body::Bytes);

/// The sending half of `tokio`'s unbounded channel, known to Verus only by
/// name.
#[verifier::external_type_specification]
#[verifier::external_body]
#[verifier::reject_recursive_types(T)]
pub struct ExUnboundedSender<T>(tokio::sync::mpsc::UnboundedSender<T>);

/// The channel that carries a streamed body's chunks.
pub type ChunkSender = tokio::sync::mpsc::UnboundedSender<Result<axum::body::Bytes, core::convert::Infallible>>;

/// `UnboundedSender::send` of a chunk turned into `Bytes`, reporting whether
/// it was accepted. The send fails exactly when the receiving half has
/// been closed or dropped, which nothing here can see, so the outcome is
/// not stated.
#[verifier::external_body]
fn send_chunk(sender: &ChunkSender, chunk: String) -> (accepted: bool) {
    sender.send(Ok(axum::body::Bytes::from(chunk))).is_ok()
}

/// The byte length of a text in UTF-8 (`str::len`).
pub open spec fn utf8_len(s: Seq<char>) -> nat {
    vstd::utf8::encode_utf8(s).len()
}

/// The chunk channel of a streamed body has been closed.
#[derive(Copy, Clone, Debug, PartialEq, Eq, Structural)]
pub struct StreamClosed;

/// The outcome of handing a chunk to the channel: `Ok` exactly when the
/// channel accepted it.
pub fn send_outcome(accepted: bool) -> (r: Result<(), StreamClosed>)
    ensures
        accepted <==> r is Ok,
        !accepted ==> r == Err::<(), StreamClosed>(StreamClosed),
{
    if accepted {
        Ok(())
    } else {
        Err(StreamClosed)
    }
}

/// A writer that streams HTML into a chunk channel: text collects in a
/// pending buffer and is handed to the channel whenever the buffer reaches
/// the flush threshold (in bytes), and on `flush`.
pub struct HtmlStreamWriter {
    sender: ChunkSender,
    pending: String,
    flush_threshold: usize,
    handed_over: Ghost<Seq<char>>,
}

impl HtmlStreamWriter {
    /// The threshold is never zero.
    #[verifier::type_invariant]
    spec fn threshold_positive(&self) -> bool {
        self.flush_threshold >= 1
    }

    /// The text written but not yet handed to the channel.
    pub closed spec fn pending_text(&self) -> Seq<char> {
        self.pending@
    }

    /// The pending size in bytes at which the text is handed over.
    pub closed spec fn threshold(&self) -> nat {
        self.flush_threshold as nat
    }

    /// All text handed to the channel so far, in order.
    pub closed spec fn handed_over(&self) -> Seq<char> {
        self.handed_over@
    }

    /// A writer on a chunk channel, with the default threshold of 8 KiB.
    pub fn new(sender: ChunkSender) -> (w: Self)
        ensures
            w.pending_text() == Seq::<char>::empty(),
            w.threshold() == 8 * 1024,
            w.handed_over() == Seq::<char>::empty(),
    {
        HtmlStreamWriter {
            sender,
            pending: String::new(),
            flush_threshold: 8 * 1024,
            handed_over: Ghost(Seq::empty()),
        }
    }

    /// The current threshold.
    pub fn flush_threshold(&self) -> (r: usize)
        ensures
            r == self.threshold(),
            r >= 1,
    {
        proof {
            use_type_invariant(self);
        }
        self.flush_threshold
    }

    /// The size of the pending text in bytes.
    pub fn pending_len(&self) -> (r: usize)
        ensures
            r == utf8_len(self.pending_text()),
    {
        self.pending.as_str().as_bytes().len()
    }

    /// Sets the threshold; zero counts as one.
    pub fn set_flush_threshold(&mut self, bytes: usize)
        ensures
            final(self).threshold() == if bytes == 0 {
                1
            } else {
                bytes as nat
            },
            final(self).pending_text() == old(self).pending_text(),
            final(self).handed_over() == old(self).handed_over(),
    {
        self.flush_threshold = if bytes < 1 {
            1
        } else {
            bytes
        };
    }

    /// Hands the pending text, if any, to the channel as one chunk. The
    /// pending text is taken even when the channel is closed.
    pub fn flush(&mut self) -> (r: Result<(), StreamClosed>)
        ensures
            final(self).pending_text() == Seq::<char>::empty(),
            final(self).threshold() == old(self).threshold(),
            final(self).handed_over() == old(self).handed_over() + old(self).pending_text(),
            old(self).pending_text().len() == 0 ==> r is Ok,
    {
        proof {
            use_type_invariant(&*self);
        }
        if self.pending.as_str().is_empty() {
            assert(self.handed_over@ + self.pending@ =~= self.handed_over@);
            return Ok(());
        }
        let mut chunk = String::new();
        std::mem::swap(&mut chunk, &mut self.pending);
        self.handed_over = Ghost(self.handed_over@ + chunk@);
        send_outcome(send_chunk(&self.sender, chunk))
    }

    /// Writes text: it is added to the pending text, which is handed to
    /// the channel once it reaches the threshold. Nothing is lost or
    /// reordered: what was handed over, followed by what is pending, is
    /// everything written.
    pub fn write_str(&mut self, s: &str) -> (r: Result<(), StreamClosed>)
        ensures
            final(self).handed_over() + final(self).pending_text() == old(self).handed_over()
                + old(self).pending_text() + s@,
            final(self).threshold() == old(self).threshold(),
            utf8_len(final(self).pending_text()) < final(self).threshold(),
            utf8_len(old(self).pending_text() + s@) < old(self).threshold() ==> r is Ok
                && final(self).handed_over() == old(self).handed_over(),
            utf8_len(old(self).pending_text() + s@) >= old(self).threshold()
                ==> final(self).pending_text() == Seq::<char>::empty(),
    {
        proof {
            use_type_invariant(&*self);
        }
        let mut text = String::new();
        std::mem::swap(&mut text, &mut self.pending);
        text.append(s);
        self.pending = text;
        if self.pending.as_str().as_bytes().len() >= self.flush_threshold {
            let r = self.flush();
            proof {
                assert(old(self).pending@ + s@ + Seq::<char>::empty() =~= old(self).pending@ + s@);
                assert(self.handed_over@ + self.pending@ =~= old(self).handed_over@ + old(self).pending@ + s@);
            }
            match r {
                Ok(()) => Ok(()),
                Err(e) => Err(e),
            }
        } else {
            assert(self.handed_over@ + self.pending@ =~= old(self).handed_over@ + old(self).pending@ + s@);
            Ok(())
        }
    }

    /// Writes a rendered fragment's HTML.
    pub fn write_fragment(&mut self, fragment: &str) -> (r: Result<(), StreamClosed>)
        ensures
            final(self).handed_over() + final(self).pending_text() == old(self).handed_over()
                + old(self).pending_text() + fragment@,
            final(self).threshold() == old(self).threshold(),
            utf8_len(final(self).pending_text()) < final(self).threshold(),
            utf8_len(old(self).pending_text() + fragment@) < old(self).threshold() ==> r is Ok
                && final(self).handed_over() == old(self).handed_over(),
            utf8_len(old(self).pending_text() + fragment@) >= old(self).threshold()
                ==> final(self).pending_text() == Seq::<char>::empty(),
    {
        self.write_str(fragment)
    }
}

/// The comment that reports a failed render inside a streamed page, given
/// the error's debug text.
pub open spec fn render_error_comment_spec(debug_text: Seq<char>) -> Seq<char> {
    "<!-- render error: "@ + debug_text + " -->"@
}

/// The comment that reports a failed render inside a streamed page.
pub fn render_error_comment(debug_text: &str) -> (r: String)
    ensures
        r@ == render_error_comment_spec(debug_text@),
{
    proof {
        reveal_strlit("<!-- render error: ");
        reveal_strlit(" -->");
    }
    let head = concat_str(&string_of("<!-- render error: "), debug_text);
    concat_str(&head, " -->")
}

/// Ends a streamed render. When the render failed (its error given by its
/// debug text), the error is written into the page as a comment; then all
/// pending text is flushed. A page already under way cannot report a
/// closed channel, so the outcomes of these hand-overs are dropped.
pub fn finish_stream(writer: &mut HtmlStreamWriter, render_error: Option<&str>)
    ensures
        final(writer).pending_text() == Seq::<char>::empty(),
        final(writer).threshold() == old(writer).threshold(),
        final(writer).handed_over() == old(writer).handed_over() + old(writer).pending_text() + match render_error {
            Some(debug_text) => render_error_comment_spec(debug_text@),
            None => Seq::<char>::empty(),
        },
{
    match render_error {
        Some(debug_text) => {
            let comment = render_error_comment(debug_text);
            let _ = writer.write_str(comment.as_str());
        },
        None => {},
    }
    let _ = writer.flush();
    proof {
        assert(old(writer).handed_over() + old(writer).pending_text() + Seq::<char>::empty() =~= old(writer).handed_over() + old(writer).pending_text());
    }
}

} // verus!
