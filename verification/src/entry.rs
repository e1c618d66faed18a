//! The markup macros' entry points: how each one reads its input and what
//! it wraps around the compiled markup.
use vstd::prelude::*;
use crate::markup::TokenTree;
use crate::modes::MacroMode;
use crate::text::string_of;

verus! {

/// The shape of a plain `html!`-style input: `markup` alone, or
/// `writer_expr, markup`.
#[derive(Copy, Clone, Debug, PartialEq, Eq, Structural)]
pub struct HtmlInvocationShape {
    pub has_writer_prefix: bool,
}

/// The shape of the input, given how many leading token trees parse as an
/// expression (`None` when no prefix does): all of them means the input is
/// a single expression (markup alone); an expression followed by `,` means
/// a writer prefix; anything else does not fit.
pub open spec fn invocation_shape_spec(tokens: Seq<TokenTree>, expr_len: Option<usize>) -> Option<
    HtmlInvocationShape,
> {
    match expr_len {
        None => None,
        Some(n) => if n > tokens.len() {
            None
        } else if n == tokens.len() {
            Some(HtmlInvocationShape { has_writer_prefix: false })
        } else if tokens[n as int] matches TokenTree::Punct { ch, .. } && ch == ',' {
            Some(HtmlInvocationShape { has_writer_prefix: true })
        } else {
            None
        },
    }
}

impl HtmlInvocationShape {
    /// Reads the shape of the input from the length of its leading
    /// expression, as parsed by `syn`.
    pub fn parse(tokens: &Vec<TokenTree>, expr_len: Option<usize>) -> (r: Option<Self>)
        ensures
            r == invocation_shape_spec(tokens@, expr_len),
    {
        match expr_len {
            None => None,
            Some(n) => {
                if n > tokens.len() {
                    None
                } else if n == tokens.len() {
                    Some(HtmlInvocationShape { has_writer_prefix: false })
                } else {
                    match &tokens[n] {
                        TokenTree::Punct { ch, .. } => {
                            if *ch == ',' {
                                Some(HtmlInvocationShape { has_writer_prefix: true })
                            } else {
                                None
                            }
                        },
                        _ => None,
                    }
                }
            },
        }
    }
}

/// The macros that render markup.
#[derive(Copy, Clone, Debug, PartialEq, Eq, Structural)]
pub enum Entry {
    Html,
    HtmlTry,
    HtmlToString,
    HtmlAsync,
    HtmlAsyncToString,
    HtmlCtx,
    HtmlAsyncCtx,
}

/// What an entry point puts around the compiled markup.
#[derive(Debug)]
pub enum Wrapper {
    /// Nothing: the input is compiled as given.
    Direct,
    /// A fragment builder bound to `builder` that the markup is written
    /// into; the finished fragment is the value, and a render error panics.
    Fragment { builder: String },
    /// As `Fragment`, but the value is a `Result` that carries the render
    /// error.
    FragmentResult { builder: String },
    /// A `String` bound to `buffer` that the markup is written into; the
    /// value is a `Result` with the string or the render error.
    StringBuffer { buffer: String },
}

/// How an entry point expands: the markup macro mode it compiles with and
/// the wrapper around it. Unless the wrapper is `Direct`, the input is
/// compiled as `&mut binding, input`.
#[derive(Debug)]
pub struct EntryPlan {
    pub mode: MacroMode,
    pub wrapper: Wrapper,
}

/// Why an entry point refused its input.
#[derive(Copy, Clone, Debug, PartialEq, Eq, Structural)]
pub enum EntryError {
    /// `html_try!` was given a writer argument.
    WriterPrefixNotAccepted,
}

impl EntryError {
    /// The error's message.
    pub fn message(&self) -> (r: String)
        ensures
            r@ == "html_try! expects markup only, e.g. html_try!(<li>{value}</li>)"@,
    {
        string_of("html_try! expects markup only, e.g. html_try!(<li>{value}</li>)")
    }
}

/// View of a wrapper.
pub enum WrapperView {
    Direct,
    Fragment { builder: Seq<char> },
    FragmentResult { builder: Seq<char> },
    StringBuffer { buffer: Seq<char> },
}

impl View for Wrapper {
    type V = WrapperView;

    open spec fn view(&self) -> WrapperView {
        match self {
            Wrapper::Direct => WrapperView::Direct,
            Wrapper::Fragment { builder } => WrapperView::Fragment { builder: builder@ },
            Wrapper::FragmentResult { builder } => WrapperView::FragmentResult { builder: builder@ },
            Wrapper::StringBuffer { buffer } => WrapperView::StringBuffer { buffer: buffer@ },
        }
    }
}

/// What each entry point does, given the shape its input parsed as (used by
/// `html!` and `html_try!` only).
///
/// `html!` compiles an input with a writer prefix as given, and otherwise
/// builds a fragment; `html_try!` refuses a writer prefix and otherwise
/// builds a fragment result; `html_to_string!` and `html_async_to_string!`
/// render into a string with the plain `html!` mode; the others compile
/// their input as given with their own mode.
pub open spec fn entry_spec(entry: Entry, shape: Option<HtmlInvocationShape>) -> Result<
    (MacroMode, WrapperView),
    EntryError,
> {
    let prefixed = shape matches Some(s) && s.has_writer_prefix;
    match entry {
        Entry::Html => if prefixed {
            Ok((MacroMode::Html, WrapperView::Direct))
        } else {
            Ok((MacroMode::Html, WrapperView::Fragment { builder: "__fr_fragment_builder"@ }))
        },
        Entry::HtmlTry => if prefixed {
            Err(EntryError::WriterPrefixNotAccepted)
        } else {
            Ok((MacroMode::Html, WrapperView::FragmentResult { builder: "__fr_fragment_builder"@ }))
        },
        Entry::HtmlToString => Ok((MacroMode::Html, WrapperView::StringBuffer { buffer: "__fr_rendered_html"@ })),
        Entry::HtmlAsyncToString => Ok((MacroMode::Html, WrapperView::StringBuffer { buffer: "__fr_rendered_html"@ })),
        Entry::HtmlAsync => Ok((MacroMode::HtmlAsync, WrapperView::Direct)),
        Entry::HtmlCtx => Ok((MacroMode::HtmlContext, WrapperView::Direct)),
        Entry::HtmlAsyncCtx => Ok((MacroMode::HtmlAsyncContext, WrapperView::Direct)),
    }
}

/// Plans an entry point's expansion.
pub fn plan_entry(entry: Entry, shape: Option<HtmlInvocationShape>) -> (r: Result<EntryPlan, EntryError>)
    ensures
        match (r, entry_spec(entry, shape)) {
            (Ok(p), Ok((mode, w))) => p.mode == mode && p.wrapper@ == w,
            (Err(e), Err(f)) => e == f,
            _ => false,
        },
{
    proof {
        reveal_strlit("__fr_fragment_builder");
        reveal_strlit("__fr_rendered_html");
    }
    let prefixed = match shape {
        Some(s) => s.has_writer_prefix,
        None => false,
    };
    match entry {
        Entry::Html => {
            if prefixed {
                Ok(EntryPlan { mode: MacroMode::Html, wrapper: Wrapper::Direct })
            } else {
                Ok(
                    EntryPlan {
                        mode: MacroMode::Html,
                        wrapper: Wrapper::Fragment { builder: string_of("__fr_fragment_builder") },
                    },
                )
            }
        },
        Entry::HtmlTry => {
            if prefixed {
                Err(EntryError::WriterPrefixNotAccepted)
            } else {
                Ok(
                    EntryPlan {
                        mode: MacroMode::Html,
                        wrapper: Wrapper::FragmentResult {
                            builder: string_of("__fr_fragment_builder"),
                        },
                    },
                )
            }
        },
        Entry::HtmlToString | Entry::HtmlAsyncToString => Ok(
            EntryPlan {
                mode: MacroMode::Html,
                wrapper: Wrapper::StringBuffer { buffer: string_of("__fr_rendered_html") },
            },
        ),
        Entry::HtmlAsync => Ok(EntryPlan { mode: MacroMode::HtmlAsync, wrapper: Wrapper::Direct }),
        Entry::HtmlCtx => Ok(EntryPlan { mode: MacroMode::HtmlContext, wrapper: Wrapper::Direct }),
        Entry::HtmlAsyncCtx => Ok(
            EntryPlan { mode: MacroMode::HtmlAsyncContext, wrapper: Wrapper::Direct },
        ),
    }
}

} // verus!
