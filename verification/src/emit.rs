//! The write events that generated code performs, and the merging of
//! adjacent literal writes into single statements.
use vstd::prelude::*;
use crate::plan::{Stmt, StmtView, stmt_view, stmts_view};

verus! {

/// One observable step of generated code: a literal character written to
/// the scope's writer, or a statement that does anything else.
pub enum WriteEvent {
    Lit(char),
    Other(StmtView),
}

/// The event of writing one literal character.
pub open spec fn lit_event(c: char) -> WriteEvent {
    WriteEvent::Lit(c)
}

/// Each character of `s` as a literal-write event.
pub open spec fn chars_events(s: Seq<char>) -> Seq<WriteEvent>
    decreases s.len(),
{
    if s.len() == 0 {
        Seq::empty()
    } else {
        chars_events(s.drop_last()).push(lit_event(s.last()))
    }
}

/// `chars_events` is taken pointwise.
pub proof fn lemma_chars_events_index(s: Seq<char>)
    ensures
        chars_events(s).len() == s.len(),
        forall|i: int| 0 <= i < s.len() ==> #[trigger] chars_events(s)[i] == WriteEvent::Lit(s[i]),
    decreases s.len(),
{
    if s.len() > 0 {
        lemma_chars_events_index(s.drop_last());
    }
}

/// The events of one statement: a literal write is its characters.
pub open spec fn stmt_events(s: StmtView) -> Seq<WriteEvent> {
    match s {
        StmtView::WriteLiteral { literal, .. } => chars_events(literal),
        _ => seq![WriteEvent::Other(s)],
    }
}

/// The events of a statement sequence, in order.
pub open spec fn flatten(stmts: Seq<StmtView>) -> Seq<WriteEvent>
    decreases stmts.len(),
{
    if stmts.len() == 0 {
        Seq::empty()
    } else {
        flatten(stmts.drop_last()) + stmt_events(stmts.last())
    }
}

/// The canonical statements for a sequence of events in a scope whose
/// writer is `w`: every maximal run of characters becomes one literal write
/// to `w`, and every other event stays a statement of its own.
pub open spec fn group(events: Seq<WriteEvent>, w: Seq<char>) -> Seq<StmtView>
    decreases events.len(),
{
    if events.len() == 0 {
        Seq::empty()
    } else {
        let prev = group(events.drop_last(), w);
        match events.last() {
            WriteEvent::Lit(c) => if prev.len() > 0 && prev.last() is WriteLiteral {
                prev.update(
                    prev.len() - 1,
                    StmtView::WriteLiteral { writer: w, literal: prev.last()->literal.push(c) },
                )
            } else {
                prev.push(StmtView::WriteLiteral { writer: w, literal: seq![c] })
            },
            WriteEvent::Other(s) => prev.push(s),
        }
    }
}

/// Whether an event is a literal write disguised as an other-statement.
pub open spec fn disguised_literal(ev: WriteEvent) -> bool {
    match ev {
        WriteEvent::Other(s) => s is WriteLiteral,
        WriteEvent::Lit(_) => false,
    }
}

/// Whether no event is a literal write disguised as an other-statement.
pub open spec fn events_wf(events: Seq<WriteEvent>) -> bool {
    forall|i: int| 0 <= i < events.len() ==> !disguised_literal(#[trigger] events[i])
}

/// Whether every literal write in `stmts` goes to `w` and writes something.
pub open spec fn literals_wf(stmts: Seq<StmtView>, w: Seq<char>) -> bool {
    forall|i: int|
        0 <= i < stmts.len() ==> ((#[trigger] stmts[i]) matches StmtView::WriteLiteral { writer, literal }
            ==> writer == w && literal.len() > 0)
}

/// `stmts_view` is taken pointwise.
pub proof fn lemma_stmts_view(v: Seq<Stmt>)
    ensures
        stmts_view(v).len() == v.len(),
        forall|i: int| 0 <= i < v.len() ==> #[trigger] stmts_view(v)[i] == stmt_view(v[i]),
    decreases v.len(),
{
    if v.len() > 0 {
        lemma_stmts_view(v.subrange(0, v.len() - 1));
    }
}

/// The view of a pushed sequence.
pub proof fn lemma_stmts_view_push(v: Seq<Stmt>, x: Stmt)
    ensures
        stmts_view(v.push(x)) == stmts_view(v).push(stmt_view(x)),
{
    assert(v.push(x).subrange(0, v.len() as int) =~= v);
}

/// The events of concatenated statements are concatenated.
pub proof fn lemma_flatten_append(a: Seq<StmtView>, b: Seq<StmtView>)
    ensures
        flatten(a + b) == flatten(a) + flatten(b),
    decreases b.len(),
{
    if b.len() == 0 {
        assert(a + b =~= a);
        assert(flatten(b) =~= Seq::<WriteEvent>::empty());
        assert(flatten(a) + flatten(b) =~= flatten(a));
    } else {
        lemma_flatten_append(a, b.drop_last());
        assert((a + b).drop_last() =~= a + b.drop_last());
        assert(flatten(a + b) =~= flatten(a) + flatten(b));
    }
}

/// Characters of a concatenation.
pub proof fn lemma_chars_events_append(a: Seq<char>, b: Seq<char>)
    ensures
        chars_events(a + b) == chars_events(a) + chars_events(b),
{
    lemma_chars_events_index(a + b);
    lemma_chars_events_index(a);
    lemma_chars_events_index(b);
    let l = chars_events(a + b);
    let r = chars_events(a) + chars_events(b);
    assert forall|i: int| 0 <= i < l.len() implies l[i] == r[i] by {
        if i < a.len() {
            assert(r[i] == chars_events(a)[i]);
        } else {
            assert(r[i] == chars_events(b)[i - a.len()]);
        }
    }
    assert(l =~= r);
}

/// Characters of a pushed sequence.
pub proof fn lemma_chars_events_push(s: Seq<char>, c: char)
    ensures
        chars_events(s.push(c)) == chars_events(s).push(WriteEvent::Lit(c)),
{
    assert(s.push(c).drop_last() =~= s);
}

/// Grouping after appending a non-empty run of characters extends the last
/// literal write, or starts a new one.
pub proof fn lemma_group_chars(e: Seq<WriteEvent>, lit: Seq<char>, w: Seq<char>)
    requires
        lit.len() > 0,
    ensures
        group(e + chars_events(lit), w) == (if group(e, w).len() > 0 && group(e, w).last() is WriteLiteral {
            group(e, w).update(
                group(e, w).len() - 1,
                StmtView::WriteLiteral { writer: w, literal: group(e, w).last()->literal + lit },
            )
        } else {
            group(e, w).push(StmtView::WriteLiteral { writer: w, literal: lit })
        }),
    decreases lit.len(),
{
    let g = group(e, w);
    let init = lit.drop_last();
    let c = lit.last();
    assert(init.push(c) =~= lit);
    lemma_chars_events_push(init, c);
    assert(e + chars_events(lit) =~= (e + chars_events(init)).push(WriteEvent::Lit(c)));
    assert((e + chars_events(lit)).drop_last() =~= e + chars_events(init));
    if init.len() == 0 {
        assert(chars_events(init) =~= Seq::<WriteEvent>::empty());
        assert(e + chars_events(init) =~= e);
        if g.len() > 0 && g.last() is WriteLiteral {
            assert(g.last()->literal.push(c) =~= g.last()->literal + lit);
        } else {
            assert(seq![c] =~= lit);
        }
    } else {
        lemma_group_chars(e, init, w);
        let gi = group(e + chars_events(init), w);
        if g.len() > 0 && g.last() is WriteLiteral {
            assert((g.last()->literal + init).push(c) =~= g.last()->literal + lit);
            assert(group(e + chars_events(lit), w) =~= g.update(
                g.len() - 1,
                StmtView::WriteLiteral { writer: w, literal: g.last()->literal + lit },
            ));
        } else {
            assert(group(e + chars_events(lit), w) =~= g.push(
                StmtView::WriteLiteral { writer: w, literal: lit },
            ));
        }
    }
}

/// Grouping after appending another statement.
pub proof fn lemma_group_other(e: Seq<WriteEvent>, s: StmtView, w: Seq<char>)
    ensures
        group(e.push(WriteEvent::Other(s)), w) == group(e, w).push(s),
{
    assert(e.push(WriteEvent::Other(s)).drop_last() =~= e);
}

/// Canonical statements write to `w` only, never an empty literal, and
/// spell out the same events.
pub proof fn lemma_group_wf(e: Seq<WriteEvent>, w: Seq<char>)
    requires
        events_wf(e),
    ensures
        literals_wf(group(e, w), w),
        flatten(group(e, w)) == e,
    decreases e.len(),
{
    if e.len() > 0 {
        let init = e.drop_last();
        assert(events_wf(init)) by {
            assert forall|i: int| 0 <= i < init.len() implies !disguised_literal(#[trigger] init[i]) by {
                assert(init[i] == e[i]);
            }
        }
        lemma_group_wf(init, w);
        let g = group(init, w);
        match e.last() {
            WriteEvent::Lit(c) => {
                if g.len() > 0 && g.last() is WriteLiteral {
                    let ng = group(e, w);
                    assert(ng.drop_last() =~= g.drop_last());
                    assert(flatten(g) == flatten(g.drop_last()) + stmt_events(g.last()));
                    lemma_chars_events_push(g.last()->literal, c);
                    assert(flatten(ng) == flatten(g.drop_last()) + chars_events(g.last()->literal).push(WriteEvent::Lit(c)));
                    assert(flatten(g.drop_last()) + chars_events(g.last()->literal).push(WriteEvent::Lit(c))
                        =~= (flatten(g.drop_last()) + chars_events(g.last()->literal)).push(WriteEvent::Lit(c)));
                    assert(init.push(e.last()) =~= e);
                    assert(flatten(ng) =~= e);
                } else {
                    assert(group(e, w).drop_last() =~= g);
                    assert(chars_events(seq![c]) =~= seq![WriteEvent::Lit(c)]) by {
                        lemma_chars_events_push(Seq::<char>::empty(), c);
                        assert(Seq::<char>::empty().push(c) =~= seq![c]);
                        assert(chars_events(Seq::<char>::empty()) =~= Seq::<WriteEvent>::empty());
                    }
                    assert(flatten(group(e, w)) =~= e);
                }
            },
            WriteEvent::Other(s) => {
                assert(group(e, w).drop_last() =~= g);
                assert(e[e.len() - 1] == e.last());
                assert(flatten(group(e, w)) =~= e);
            },
        }
    }
}

/// Grouping the events of statements that are already canonical gives
/// them back.
pub proof fn lemma_events_wf_flatten(stmts: Seq<StmtView>)
    ensures
        events_wf(flatten(stmts)),
    decreases stmts.len(),
{
    if stmts.len() > 0 {
        lemma_events_wf_flatten(stmts.drop_last());
        let a = flatten(stmts.drop_last());
        let b = stmt_events(stmts.last());
        assert forall|i: int| 0 <= i < (a + b).len() implies !disguised_literal(#[trigger] (a + b)[i]) by {
            if i < a.len() {
                assert((a + b)[i] == a[i]);
            } else {
                assert((a + b)[i] == b[i - a.len()]);
                match stmts.last() {
                    StmtView::WriteLiteral { literal, .. } => {
                        lemma_chars_events_index(literal);
                        assert(b[i - a.len()] == WriteEvent::Lit(literal[i - a.len()]));
                    },
                    _ => {},
                }
            }
        }
    }
}

/// Merging literal writes twice merges nothing more: the canonical
/// statements of some statements' events are their own canonical form, and
/// they spell out the same events.
pub proof fn lemma_coalesce_idempotent(stmts: Seq<StmtView>, w: Seq<char>)
    ensures
        literals_wf(group(flatten(stmts), w), w),
        flatten(group(flatten(stmts), w)) == flatten(stmts),
        group(flatten(group(flatten(stmts), w)), w) == group(flatten(stmts), w),
{
    lemma_events_wf_flatten(stmts);
    lemma_group_wf(flatten(stmts), w);
}

/// A run of literal text becomes a single literal write (nothing, when the
/// text is empty).
pub proof fn lemma_group_text(text: Seq<char>, w: Seq<char>)
    ensures
        group(chars_events(text), w) == if text.len() == 0 {
            Seq::<StmtView>::empty()
        } else {
            seq![StmtView::WriteLiteral { writer: w, literal: text }]
        },
{
    if text.len() == 0 {
        assert(chars_events(text) =~= Seq::<WriteEvent>::empty());
    } else {
        lemma_group_chars(Seq::<WriteEvent>::empty(), text, w);
        assert(Seq::<WriteEvent>::empty() + chars_events(text) =~= chars_events(text));
        assert(group(Seq::<WriteEvent>::empty(), w) =~= Seq::<StmtView>::empty());
        assert(Seq::<StmtView>::empty().push(StmtView::WriteLiteral { writer: w, literal: text })
            =~= seq![StmtView::WriteLiteral { writer: w, literal: text }]);
    }
}

} // verus!

verus! {

/// What walking markup produces: statements, diagnostics and component
/// symbol hints, each in order.
#[derive(Debug)]
pub struct WalkNodesOutput {
    pub statements: Vec<Stmt>,
    pub diagnostics: Vec<crate::plan::Diagnostic>,
    pub component_symbol_hints: Vec<crate::plan::ComponentSymbolHint>,
}

/// The literal write statement `writer.write_str(literal)`.
pub fn build_literal_write_statement(writer: String, literal: String) -> (s: Stmt)
    ensures
        s@ == (StmtView::WriteLiteral { writer: writer@, literal: literal@ }),
{
    Stmt::WriteLiteral { writer, literal }
}

/// The writer and text of a literal write statement; `None` for any other
/// statement.
pub fn parse_literal_write_statement(statement: &Stmt) -> (r: Option<(String, String)>)
    ensures
        match statement@ {
            StmtView::WriteLiteral { writer, literal } => r matches Some((w, l)) && w@ == writer
                && l@ == literal,
            _ => r is None,
        },
{
    match statement {
        Stmt::WriteLiteral { writer, literal } => Some((writer.clone(), literal.clone())),
        _ => None,
    }
}

/// Adjacent literal writes to the same writer merged into one, every other
/// statement kept in place.
pub open spec fn coalesce_spec(stmts: Seq<StmtView>) -> Seq<StmtView>
    decreases stmts.len(),
{
    if stmts.len() == 0 {
        Seq::empty()
    } else {
        let prev = coalesce_spec(stmts.drop_last());
        let s = stmts.last();
        match s {
            StmtView::WriteLiteral { writer, literal } => if prev.len() > 0 && prev.last() is WriteLiteral
                && prev.last()->WriteLiteral_writer == writer {
                prev.update(
                    prev.len() - 1,
                    StmtView::WriteLiteral { writer, literal: prev.last()->WriteLiteral_literal + literal },
                )
            } else {
                prev.push(s)
            },
            _ => prev.push(s),
        }
    }
}

/// When every literal write goes to `w` and writes something, merging
/// literal writes gives the canonical statements of the same events.
pub proof fn lemma_coalesce_is_group(stmts: Seq<StmtView>, w: Seq<char>)
    requires
        literals_wf(stmts, w),
    ensures
        coalesce_spec(stmts) == group(flatten(stmts), w),
    decreases stmts.len(),
{
    if stmts.len() > 0 {
        let init = stmts.drop_last();
        assert(literals_wf(init, w)) by {
            assert forall|i: int| 0 <= i < init.len() implies ((#[trigger] init[i]) matches StmtView::WriteLiteral { writer, literal }
                ==> writer == w && literal.len() > 0) by {
                assert(init[i] == stmts[i]);
            }
        }
        lemma_coalesce_is_group(init, w);
        let e = flatten(init);
        let s = stmts.last();
        assert(stmts[stmts.len() - 1] == s);
        lemma_events_wf_flatten(init);
        lemma_group_wf(e, w);
        let g = group(e, w);
        match s {
            StmtView::WriteLiteral { writer, literal } => {
                lemma_group_chars(e, literal, w);
                if g.len() > 0 && g.last() is WriteLiteral {
                    assert(g[g.len() - 1] == g.last());
                }
            },
            _ => {
                assert(flatten(stmts) =~= e.push(WriteEvent::Other(s)));
                lemma_group_other(e, s, w);
            },
        }
    }
}

/// The statements of a pending literal write, if any.
pub open spec fn pending_view(p: Option<(String, String)>) -> Seq<StmtView> {
    match p {
        Some((w, l)) => seq![StmtView::WriteLiteral { writer: w@, literal: l@ }],
        None => Seq::empty(),
    }
}

impl WalkNodesOutput {
    /// The views of the statements.
    pub open spec fn stmts(&self) -> Seq<StmtView> {
        stmts_view(self.statements@)
    }

    /// Merges every run of adjacent literal writes to the same writer into
    /// one literal write, keeping every other statement in place. When all
    /// literal writes go to one writer `w` and none is empty, the result is
    /// the canonical grouping of the same events.
    pub fn coalesce_literal_write_statements(&mut self)
        ensures
            final(self).diagnostics == old(self).diagnostics,
            final(self).component_symbol_hints == old(self).component_symbol_hints,
            final(self).stmts() == coalesce_spec(old(self).stmts()),
            forall|w: Seq<char>| #[trigger]
                literals_wf(old(self).stmts(), w) ==> final(self).stmts() == group(
                    flatten(old(self).stmts()),
                    w,
                ),
    {
        let ghost orig = old(self).statements@;
        let ghost ov = stmts_view(orig);
        let mut stmts: Vec<Stmt> = Vec::new();
        std::mem::swap(&mut stmts, &mut self.statements);
        let mut merged: Vec<Stmt> = Vec::new();
        let mut pending: Option<(String, String)> = None;
        let ghost mut k: int = 0;
        proof {
            lemma_stmts_view(orig);
            assert(orig.skip(0) =~= orig);
            assert(ov.take(0) =~= Seq::<StmtView>::empty());
            assert(stmts_view(merged@) =~= Seq::<StmtView>::empty());
        }
        while stmts.len() > 0
            invariant
                0 <= k <= orig.len(),
                ov == stmts_view(orig),
                ov.len() == orig.len(),
                forall|i: int| 0 <= i < orig.len() ==> #[trigger] ov[i] == stmt_view(orig[i]),
                stmts@ == orig.skip(k),
                self.statements@.len() == 0,
                self.diagnostics == old(self).diagnostics,
                self.component_symbol_hints == old(self).component_symbol_hints,
                stmts_view(merged@) + pending_view(pending) == coalesce_spec(ov.take(k)),
                pending is None ==> !(stmts_view(merged@).len() > 0 && stmts_view(merged@).last() is WriteLiteral),
            decreases stmts.len(),
        {
            let statement = stmts.remove(0);
            let ghost sv = stmt_view(statement);
            let ghost prev_merged = stmts_view(merged@);
            let ghost prev_pending = pending;
            let ghost prev = coalesce_spec(ov.take(k));
            proof {
                assert(statement == orig[k]);
                assert(orig.skip(k + 1) =~= orig.skip(k).drop_first());
                assert(ov.take(k + 1).drop_last() =~= ov.take(k));
                assert(ov.take(k + 1).last() == sv);
            }
            if let Some((writer, literal)) = parse_literal_write_statement(&statement) {
                let take_pending = match &pending {
                    Some((pw, _)) => *pw != writer,
                    None => false,
                };
                if take_pending {
                    let (pw, pl) = pending.unwrap();
                    let built = build_literal_write_statement(pw, pl);
                    proof {
                        lemma_stmts_view_push(merged@, built);
                    }
                    merged.push(built);
                    pending = Some((writer, literal));
                    proof {
                        assert(stmts_view(merged@) + pending_view(pending) =~= prev.push(sv));
                    }
                } else {
                    match &mut pending {
                        Some((_, pl)) => {
                            pl.append(literal.as_str());
                        },
                        None => {
                            pending = Some((writer, literal));
                        },
                    }
                    proof {
                        match prev_pending {
                            Some((ppw, ppl)) => {
                                assert(prev.last() == StmtView::WriteLiteral { writer: ppw@, literal: ppl@ });
                                assert(stmts_view(merged@) + pending_view(pending) =~= prev.update(
                                    prev.len() - 1,
                                    StmtView::WriteLiteral { writer: ppw@, literal: ppl@ + sv->literal },
                                ));
                            },
                            None => {
                                assert(prev_merged + pending_view(prev_pending) =~= prev_merged);
                                assert(stmts_view(merged@) + pending_view(pending) =~= prev.push(sv));
                            },
                        }
                    }
                }
            } else {
                if pending.is_some() {
                    let (pw, pl) = pending.unwrap();
                    let built = build_literal_write_statement(pw, pl);
                    proof {
                        lemma_stmts_view_push(merged@, built);
                    }
                    merged.push(built);
                    pending = None;
                }
                proof {
                    lemma_stmts_view_push(merged@, statement);
                }
                merged.push(statement);
                proof {
                    assert(pending_view(pending) =~= Seq::<StmtView>::empty());
                    assert(stmts_view(merged@) + pending_view(pending) =~= (prev_merged + pending_view(prev_pending)).push(sv));
                }
            }
            proof {
                k = k + 1;
            }
        }
        proof {
            assert(ov.take(k) =~= ov);
        }
        if pending.is_some() {
            let (pw, pl) = pending.unwrap();
            let built = build_literal_write_statement(pw, pl);
            proof {
                lemma_stmts_view_push(merged@, built);
                assert(stmts_view(merged@.push(built)) =~= stmts_view(merged@) + pending_view(pending));
            }
            merged.push(built);
        } else {
            proof {
                assert(stmts_view(merged@) + pending_view(pending) =~= stmts_view(merged@));
            }
        }
        self.statements = merged;
        proof {
            assert forall|w: Seq<char>| #[trigger] literals_wf(ov, w) implies coalesce_spec(ov) == group(flatten(ov), w) by {
                lemma_coalesce_is_group(ov, w);
            }
        }
    }
}

} // verus!

verus! {

/// The view of concatenated statements.
pub proof fn lemma_stmts_view_append(a: Seq<Stmt>, b: Seq<Stmt>)
    ensures
        stmts_view(a + b) == stmts_view(a) + stmts_view(b),
{
    lemma_stmts_view(a + b);
    lemma_stmts_view(a);
    lemma_stmts_view(b);
    assert forall|i: int| 0 <= i < (a + b).len() implies #[trigger] stmts_view(a + b)[i] == (stmts_view(a) + stmts_view(b))[i] by {
        if i < a.len() {
            assert((a + b)[i] == a[i]);
        } else {
            assert((a + b)[i] == b[i - a.len()]);
        }
    }
    assert(stmts_view(a + b) =~= stmts_view(a) + stmts_view(b));
}

/// The events of a pushed statement.
pub proof fn lemma_flatten_push(a: Seq<StmtView>, s: StmtView)
    ensures
        flatten(a.push(s)) == flatten(a) + stmt_events(s),
{
    assert(a.push(s).drop_last() =~= a);
}

/// Literal writes of concatenated statements.
pub proof fn lemma_literals_wf_append(a: Seq<StmtView>, b: Seq<StmtView>, w: Seq<char>)
    requires
        literals_wf(a, w),
        literals_wf(b, w),
    ensures
        literals_wf(a + b, w),
{
    assert forall|i: int| 0 <= i < (a + b).len() implies ((#[trigger] (a + b)[i]) matches StmtView::WriteLiteral { writer, literal }
        ==> writer == w && literal.len() > 0) by {
        if i < a.len() {
            assert((a + b)[i] == a[i]);
        } else {
            assert((a + b)[i] == b[i - a.len()]);
        }
    }
}

impl WalkNodesOutput {
    /// Appends another output's statements, diagnostics and hints.
    pub fn extend(&mut self, other: WalkNodesOutput)
        ensures
            final(self).statements@ == old(self).statements@ + other.statements@,
            final(self).diagnostics@ == old(self).diagnostics@ + other.diagnostics@,
            final(self).component_symbol_hints@ == old(self).component_symbol_hints@
                + other.component_symbol_hints@,
    {
        let mut other = other;
        self.statements.append(&mut other.statements);
        self.diagnostics.append(&mut other.diagnostics);
        self.component_symbol_hints.append(&mut other.component_symbol_hints);
    }
}

} // verus!
