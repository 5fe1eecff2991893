//! Frames and boxes of beamer presentations, opened and closed by headings, and the count of
//! finished frames that the spoken commentary follows.
use vstd::prelude::*;

use crate::error::{DiagnosticCode, Error};
use crate::text::push_str;

verus! {

/// What opening or closing headings does to the frames.
#[derive(Clone, Copy, Debug, PartialEq, Eq, Structural)]
pub enum FrameEvent {
    BeginFrame,
    BeginBox,
    EndFrame,
    EndBox,
}

/// Closing of the heading of `stack_level` while closing until `level`.
pub open spec fn close_piece(stack_level: int, level: int) -> (Seq<FrameEvent>, Seq<char>) {
    if stack_level == 2 {
        (seq![FrameEvent::EndFrame], "\\end{frame}\n\n"@)
    } else if stack_level == 3 {
        (
            seq![FrameEvent::EndBox],
            "\\end{beamerboxesrounded}\n"@ + if level == 3 {
                "\\vspace{1em}\n"@
            } else {
                Seq::empty()
            },
        )
    } else {
        (Seq::empty(), Seq::empty())
    }
}

/// Closing of the headings `k` down to `level`, innermost first.
pub open spec fn close_all(k: int, level: int) -> (Seq<FrameEvent>, Seq<char>)
    decreases k,
{
    if k < level || k <= 0 {
        (Seq::empty(), Seq::empty())
    } else {
        let rest = close_all(k - 1, level);
        let p = close_piece(k, level);
        (p.0 + rest.0, p.1 + rest.1)
    }
}

/// Opening of the heading of level `l`.
pub open spec fn open_piece(l: int, sectionframes: bool, frameheadings: bool) -> (
    Seq<FrameEvent>,
    Seq<char>,
) {
    if l == 1 {
        if sectionframes {
            (
                seq![FrameEvent::BeginFrame, FrameEvent::EndFrame],
                "\\begin{frame}\n"@ + "\\Huge\\centering \\insertsection\n"@ + "\\end{frame}\n\n"@,
            )
        } else {
            (Seq::empty(), Seq::empty())
        }
    } else if l == 2 {
        (
            seq![FrameEvent::BeginFrame],
            "\\begin{frame}[fragile]\n"@ + if frameheadings {
                "\\frametitle{\\insertsection}\n"@ + "\\framesubtitle{\\insertsubsection}\n"@
            } else {
                Seq::empty()
            },
        )
    } else {
        (seq![FrameEvent::BeginBox], "\\begin{beamerboxesrounded}{\\insertsubsubsection}\n"@)
    }
}

/// Opening of the headings after `k` up to `level`, outermost first.
pub open spec fn open_all(k: int, level: int, sectionframes: bool, frameheadings: bool) -> (
    Seq<FrameEvent>,
    Seq<char>,
)
    decreases level - k,
{
    if level <= k {
        (Seq::empty(), Seq::empty())
    } else {
        let rest = open_all(k, level - 1, sectionframes, frameheadings);
        let p = open_piece(level, sectionframes, frameheadings);
        (rest.0 + p.0, rest.1 + p.1)
    }
}

/// The headings `1, 2, ..., k`.
pub open spec fn levels_upto(k: int) -> Seq<i32> {
    Seq::new(k as nat, |i: int| (i + 1) as i32)
}

pub open spec fn smin(a: int, b: int) -> int {
    if a <= b {
        a
    } else {
        b
    }
}

pub open spec fn smax(a: int, b: int) -> int {
    if a >= b {
        a
    } else {
        b
    }
}

/// The beamer backend: the stack of headings that are open.
#[derive(Debug)]
pub struct Beamer {
    /// Stack of used headings, used to close frames.
    ///
    /// 1: section
    /// 2: subsection / frame
    /// 3: beamerboxesrounded
    headings: Vec<i32>,
}

/// The diagnostics that a heading of `level` in a presentation gives: an
/// `InvalidHeaderLevel` where it is deeper than 3.
pub open spec fn level_diagnostics(level: i32) -> Seq<DiagnosticCode> {
    if level > 3 {
        seq![DiagnosticCode::InvalidHeaderLevel]
    } else {
        Seq::empty()
    }
}

/// Checks that a heading level is supported in presentations (at most 3), reporting an
/// `InvalidHeaderLevel` diagnostic and refusing where it is not.
pub fn check_level(level: i32, diagnostics: &mut Vec<DiagnosticCode>) -> (r: Result<(), Error>)
    requires
        level > 0,
    ensures
        r is Ok <==> level <= 3,
        r matches Err(e) ==> e == Error::Diagnostic,
        final(diagnostics)@ == old(diagnostics)@ + level_diagnostics(level),
{
    if level > 3 {
        diagnostics.push(DiagnosticCode::InvalidHeaderLevel);
        return Err(Error::Diagnostic);
    }
    assert(old(diagnostics)@ + level_diagnostics(level) =~= old(diagnostics)@);
    Ok(())
}

impl Beamer {
    /// The number of open headings.
    pub closed spec fn depth(&self) -> int {
        self.headings@.len() as int
    }

    /// The open headings are `1, 2, ..., depth`, at most three deep.
    pub closed spec fn wf(&self) -> bool {
        &&& self.headings@ == levels_upto(self.depth())
        &&& self.depth() <= 3
    }

    /// The depth is never negative.
    pub proof fn lemma_depth(&self)
        ensures
            self.depth() >= 0,
    {
    }

    pub fn new() -> (r: Beamer)
        ensures
            r.wf(),
            r.depth() == 0,
    {
        let b = Beamer { headings: Vec::new() };
        assert(b.headings@ =~= levels_upto(0));
        b
    }

    /// Closes the beamerboxesrounded / slides until including the given level; levels above
    /// 3 are refused with an `InvalidHeaderLevel` diagnostic and leave the headings as they
    /// are.
    pub fn close_until(&mut self, level: i32, diagnostics: &mut Vec<DiagnosticCode>) -> (r: Result<
        (Vec<FrameEvent>, String),
        Error,
    >)
        requires
            old(self).wf(),
            level > 0,
        ensures
            final(self).wf(),
            final(diagnostics)@ == old(diagnostics)@ + level_diagnostics(level),
            level > 3 ==> (r matches Err(Error::Diagnostic) && final(self).depth() == old(self).depth()),
            level <= 3 ==> (r matches Ok((ev, out)) && final(self).depth() == smin(
                old(self).depth(),
                level - 1,
            ) && ev@ == close_all(old(self).depth(), level as int).0 && out@ == close_all(
                old(self).depth(),
                level as int,
            ).1),
    {
        match check_level(level, diagnostics) {
            Ok(()) => self.close_down(level),
            Err(e) => Err(e),
        }
    }

    /// Opens the beamerboxesrounded / slides until including the given level, updating the
    /// heading stack; levels above 3 are refused with an `InvalidHeaderLevel` diagnostic and
    /// leave the headings as they are.
    pub fn open_until(
        &mut self,
        level: i32,
        sectionframes: bool,
        frameheadings: bool,
        diagnostics: &mut Vec<DiagnosticCode>,
    ) -> (r: Result<(Vec<FrameEvent>, String), Error>)
        requires
            old(self).wf(),
            level > 0,
        ensures
            final(self).wf(),
            final(diagnostics)@ == old(diagnostics)@ + level_diagnostics(level),
            level > 3 ==> (r matches Err(Error::Diagnostic) && final(self).depth() == old(self).depth()),
            level <= 3 ==> (r matches Ok((ev, out)) && final(self).depth() == smax(
                old(self).depth(),
                level as int,
            ) && ev@ == open_all(old(self).depth(), level as int, sectionframes, frameheadings).0
                && out@ == open_all(old(self).depth(), level as int, sectionframes, frameheadings).1),
    {
        match check_level(level, diagnostics) {
            Ok(()) => self.open_up(level, sectionframes, frameheadings),
            Err(e) => Err(e),
        }
    }

    /// Closes until including the given level, refusing levels above 3.
    pub(crate) fn close_down(&mut self, level: i32) -> (r: Result<(Vec<FrameEvent>, String), Error>)
        requires
            old(self).wf(),
            level > 0,
        ensures
            final(self).wf(),
            level > 3 ==> (r matches Err(Error::Diagnostic) && final(self).depth() == old(self).depth()),
            level <= 3 ==> (r matches Ok((ev, out)) && final(self).depth() == smin(
                old(self).depth(),
                level - 1,
            ) && ev@ == close_all(old(self).depth(), level as int).0 && out@ == close_all(
                old(self).depth(),
                level as int,
            ).1),
    {
        if level > 3 {
            return Err(Error::Diagnostic);
        }
        let ghost k0 = self.depth();
        let mut levels: Vec<FrameEvent> = Vec::new();
        let mut out = String::new();
        while self.headings.len() > 0 && self.headings[self.headings.len() - 1] >= level
            invariant
                self.wf(),
                0 < level <= 3,
                self.depth() <= k0,
                self.depth() >= level - 1 || self.depth() == k0,
                close_all(k0, level as int).0 == levels@ + close_all(self.depth(), level as int).0,
                close_all(k0, level as int).1 == out@ + close_all(self.depth(), level as int).1,
            decreases self.depth(),
        {
            let ghost k = self.depth();
            let stack_level = self.headings.pop().unwrap();
            assert(stack_level == k);
            assert(self.headings@ =~= levels_upto(k - 1));
            let ghost ol = levels@;
            let ghost oo = out@;
            if stack_level == 2 {
                levels.push(FrameEvent::EndFrame);
                push_str(&mut out, "\\end{frame}\n\n");
            } else if stack_level == 3 {
                levels.push(FrameEvent::EndBox);
                push_str(&mut out, "\\end{beamerboxesrounded}\n");
                if level == 3 {
                    push_str(&mut out, "\\vspace{1em}\n");
                }
            }
            proof {
                let p = close_piece(k, level as int);
                assert(levels@ =~= ol + p.0);
                assert(out@ =~= oo + p.1);
                assert(close_all(k, level as int).0 == p.0 + close_all(k - 1, level as int).0);
                assert(ol + (p.0 + close_all(k - 1, level as int).0) =~= levels@ + close_all(
                    k - 1,
                    level as int,
                ).0);
                assert(oo + (p.1 + close_all(k - 1, level as int).1) =~= out@ + close_all(
                    k - 1,
                    level as int,
                ).1);
            }
        }
        proof {
            let k = self.depth();
            if k > 0 {
                assert(self.headings@[k - 1] == k);
            }
            assert(close_all(k, level as int).0 =~= Seq::<FrameEvent>::empty());
            assert(levels@ =~= levels@ + close_all(k, level as int).0);
            assert(out@ =~= out@ + close_all(k, level as int).1);
        }
        Ok((levels, out))
    }

    /// Opens until including the given level, refusing levels above 3.
    fn open_up(&mut self, level: i32, sectionframes: bool, frameheadings: bool) -> (r: Result<
        (Vec<FrameEvent>, String),
        Error,
    >)
        requires
            old(self).wf(),
            level > 0,
        ensures
            final(self).wf(),
            level > 3 ==> (r matches Err(Error::Diagnostic) && final(self).depth() == old(self).depth()),
            level <= 3 ==> (r matches Ok((ev, out)) && final(self).depth() == smax(
                old(self).depth(),
                level as int,
            ) && ev@ == open_all(old(self).depth(), level as int, sectionframes, frameheadings).0
                && out@ == open_all(old(self).depth(), level as int, sectionframes, frameheadings).1),
    {
        if level > 3 {
            return Err(Error::Diagnostic);
        }
        let ghost k0 = self.depth();
        let last: i32 = if self.headings.len() > 0 {
            self.headings[self.headings.len() - 1]
        } else {
            0
        };
        assert(last == k0);
        let mut levels: Vec<FrameEvent> = Vec::new();
        let mut out = String::new();
        let mut l: i32 = last + 1;
        assert(levels@ =~= open_all(k0, k0, sectionframes, frameheadings).0);
        assert(out@ =~= open_all(k0, k0, sectionframes, frameheadings).1);
        while l <= level
            invariant
                self.wf(),
                0 < level <= 3,
                k0 < l <= 4,
                l <= level + 1 || l == k0 + 1,
                self.depth() == l - 1,
                levels@ == open_all(k0, l - 1, sectionframes, frameheadings).0,
                out@ == open_all(k0, l - 1, sectionframes, frameheadings).1,
            decreases level + 1 - l,
        {
            self.headings.push(l);
            assert(self.headings@ =~= levels_upto(l as int));
            let ghost ol = levels@;
            let ghost oo = out@;
            if l == 1 {
                if sectionframes {
                    push_str(&mut out, "\\begin{frame}\n");
                    levels.push(FrameEvent::BeginFrame);
                    push_str(&mut out, "\\Huge\\centering \\insertsection\n");
                    push_str(&mut out, "\\end{frame}\n\n");
                    levels.push(FrameEvent::EndFrame);
                }
            } else if l == 2 {
                push_str(&mut out, "\\begin{frame}[fragile]\n");
                if frameheadings {
                    push_str(&mut out, "\\frametitle{\\insertsection}\n");
                    push_str(&mut out, "\\framesubtitle{\\insertsubsection}\n");
                }
                levels.push(FrameEvent::BeginFrame);
            } else {
                push_str(&mut out, "\\begin{beamerboxesrounded}{\\insertsubsubsection}\n");
                levels.push(FrameEvent::BeginBox);
            }
            proof {
                let p = open_piece(l as int, sectionframes, frameheadings);
                assert(levels@ =~= ol + p.0);
                assert(out@ =~= oo + p.1);
            }
            l = l + 1;
        }
        proof {
            if level <= k0 {
                assert(open_all(k0, level as int, sectionframes, frameheadings).0 =~= Seq::<
                    FrameEvent,
                >::empty());
                assert(open_all(k0, level as int, sectionframes, frameheadings).1 =~= Seq::<
                    char,
                >::empty());
            }
        }
        Ok((levels, out))
    }
}

/// Number of `EndFrame` events in `ev`.
pub open spec fn count_end_frames(ev: Seq<FrameEvent>) -> nat
    decreases ev.len(),
{
    if ev.len() == 0 {
        0
    } else {
        count_end_frames(ev.drop_last()) + if ev.last() == FrameEvent::EndFrame {
            1nat
        } else {
            0nat
        }
    }
}

/// The number of the frame that is shown.
#[derive(Debug)]
pub struct CurrentFrame(pub u32);

impl CurrentFrame {
    pub fn get(&self) -> (r: u32)
        ensures
            r == self.0,
    {
        self.0
    }

    /// Counts the frames that ended.
    pub fn advance_with(&mut self, events: &Vec<FrameEvent>)
        requires
            old(self).0 + count_end_frames(events@) <= u32::MAX,
        ensures
            final(self).0 == old(self).0 + count_end_frames(events@),
    {
        let ghost start = self.0;
        let mut i: usize = 0;
        assert(events@.take(0) =~= Seq::<FrameEvent>::empty());
        while i < events.len()
            invariant
                i <= events@.len(),
                start + count_end_frames(events@) <= u32::MAX,
                self.0 == start + count_end_frames(events@.take(i as int)),
            decreases events@.len() - i,
        {
            proof {
                assert(events@.take(i + 1).drop_last() =~= events@.take(i as int));
                lemma_count_end_frames_prefix(events@, i + 1);
            }
            if events[i] == FrameEvent::EndFrame {
                self.0 = self.0 + 1;
            }
            i = i + 1;
        }
        assert(events@.take(i as int) =~= events@);
    }
}

/// Counting over a prefix counts no more than over the whole.
pub proof fn lemma_count_end_frames_prefix(ev: Seq<FrameEvent>, k: int)
    requires
        0 <= k <= ev.len(),
    ensures
        count_end_frames(ev.take(k)) <= count_end_frames(ev),
    decreases ev.len() - k,
{
    if k < ev.len() {
        lemma_count_end_frames_prefix(ev, k + 1);
        assert(ev.take(k + 1).drop_last() =~= ev.take(k));
    } else {
        assert(ev.take(k) =~= ev);
    }
}

/// Slides whose frames are followed by spoken commentary: the beamer backend and the count
/// of the frame that is shown.
#[derive(Debug)]
pub struct SlidesFfmpegEspeak {
    pub current_frame: CurrentFrame,
    pub slides: Beamer,
}

impl SlidesFfmpegEspeak {
    pub fn new() -> (r: SlidesFfmpegEspeak)
        ensures
            r.current_frame.0 == 0,
            r.slides.wf(),
            r.slides.depth() == 0,
    {
        SlidesFfmpegEspeak { current_frame: CurrentFrame(0), slides: Beamer::new() }
    }
}

/// Generator of headings in presentations: closes the frames and boxes down to the level
/// of the heading, writes the heading, and opens frames and boxes up to its level.
#[derive(Debug)]
pub struct BeamerHeaderGen {
    pub level: i32,
    pub label: String,
}

impl BeamerHeaderGen {
    /// Closes down to the heading's level and opens the heading; the refusal of levels
    /// above 3 leaves everything as it is.
    pub fn new(
        backend: &mut Beamer,
        level: i32,
        label: String,
        diagnostics: &mut Vec<DiagnosticCode>,
    ) -> (r: Result<(BeamerHeaderGen, String), Error>)
        requires
            old(backend).wf(),
            level > 0,
        ensures
            final(backend).wf(),
            final(diagnostics)@ == old(diagnostics)@ + level_diagnostics(level),
            level > 3 ==> (r matches Err(Error::Diagnostic) && final(backend).depth() == old(backend).depth()),
            level <= 3 ==> (r matches Ok((g, out)) && g.level == level && g.label == label
                && final(backend).depth() == smin(old(backend).depth(), level - 1) && out@ == close_all(
                old(backend).depth(),
                level as int,
            ).1 + "\\"@ + crate::latex_complex::repeat("sub"@, (level - 1) as nat) + "section{"@),
    {
        let (_events, mut out) = match backend.close_until(level, diagnostics) {
            Ok(x) => x,
            Err(e) => return Err(e),
        };
        let (_, h) = crate::latex_complex::HeaderGen::new(level, String::new());
        push_str(&mut out, h.as_str());
        Ok((BeamerHeaderGen { level, label }, out))
    }

    /// Ends the heading and opens frames and boxes up to its level.
    pub fn finish(self, backend: &mut Beamer, sectionframes: bool, frameheadings: bool) -> (r: Result<String, Error>)
        requires
            old(backend).wf(),
            0 < self.level <= 3,
        ensures
            final(backend).wf(),
            r matches Ok(out) && final(backend).depth() == smax(old(backend).depth(), self.level as int)
                && out@ == crate::latex_complex::header_end_text(self.label@) + open_all(
                old(backend).depth(),
                self.level as int,
                sectionframes,
                frameheadings,
            ).1,
    {
        let mut out = crate::latex_complex::header_end(self.label.as_str());
        match backend.open_up(self.level, sectionframes, frameheadings) {
            Ok((_events, t)) => {
                push_str(&mut out, t.as_str());
                Ok(out)
            },
            Err(e) => Err(e),
        }
    }
}

/// Generator of page breaks in presentations: a new frame.
#[derive(Debug)]
pub struct BeamerPageBreakGen;

impl BeamerPageBreakGen {
    /// Closes the frame (and boxes) and opens a new one.
    pub fn finish(backend: &mut Beamer, sectionframes: bool, frameheadings: bool) -> (r: String)
        requires
            old(backend).wf(),
        ensures
            final(backend).wf(),
            final(backend).depth() == 2,
            r@ == close_all(old(backend).depth(), 2).1 + open_all(
                smin(old(backend).depth(), 1),
                2,
                sectionframes,
                frameheadings,
            ).1,
    {
        proof {
            backend.lemma_depth();
        }
        let mut out = match backend.close_down(2) {
            Ok((_e, t)) => t,
            Err(_) => String::new(),
        };
        match backend.open_up(2, sectionframes, frameheadings) {
            Ok((_e, t)) => push_str(&mut out, t.as_str()),
            Err(_) => {},
        }
        out
    }
}

/// Generator of rules in narrated slides: a new frame, counting the frames that end.
#[derive(Debug)]
pub struct PseudoBeamerRuleGen;

impl PseudoBeamerRuleGen {
    pub fn finish(backend: &mut SlidesFfmpegEspeak, sectionframes: bool, frameheadings: bool) -> (r: String)
        requires
            old(backend).slides.wf(),
            old(backend).current_frame.0 + count_end_frames(close_all(old(backend).slides.depth(), 2).0)
                + count_end_frames(
                open_all(smin(old(backend).slides.depth(), 1), 2, sectionframes, frameheadings).0,
            ) <= u32::MAX,
        ensures
            final(backend).slides.wf(),
            final(backend).slides.depth() == 2,
            final(backend).current_frame.0 == old(backend).current_frame.0 + count_end_frames(
                close_all(old(backend).slides.depth(), 2).0,
            ) + count_end_frames(
                open_all(smin(old(backend).slides.depth(), 1), 2, sectionframes, frameheadings).0,
            ),
            r@ == close_all(old(backend).slides.depth(), 2).1 + open_all(
                smin(old(backend).slides.depth(), 1),
                2,
                sectionframes,
                frameheadings,
            ).1,
    {
        proof {
            backend.slides.lemma_depth();
        }
        let mut out = match backend.slides.close_down(2) {
            Ok((ev, t)) => {
                backend.current_frame.advance_with(&ev);
                t
            },
            Err(_) => String::new(),
        };
        match backend.slides.open_up(2, sectionframes, frameheadings) {
            Ok((ev, t)) => {
                backend.current_frame.advance_with(&ev);
                push_str(&mut out, t.as_str());
            },
            Err(_) => {},
        }
        out
    }
}

/// Generator of headings in narrated slides: as in presentations, counting the frames that
/// end.
#[derive(Debug)]
pub struct PseudoBeamerHeaderGen {
    pub level: i32,
    pub label: String,
}

impl PseudoBeamerHeaderGen {
    /// Closes down to the heading's level and opens the heading; levels above 3 are refused
    /// with an `InvalidHeaderLevel` diagnostic.
    pub fn new(
        backend: &mut SlidesFfmpegEspeak,
        level: i32,
        label: String,
        diagnostics: &mut Vec<DiagnosticCode>,
    ) -> (r: Result<(PseudoBeamerHeaderGen, String), Error>)
        requires
            old(backend).slides.wf(),
            level > 0,
            level <= 3 ==> old(backend).current_frame.0 + count_end_frames(
                close_all(old(backend).slides.depth(), level as int).0,
            ) <= u32::MAX,
        ensures
            final(diagnostics)@ == old(diagnostics)@ + level_diagnostics(level),
            final(backend).slides.wf(),
            level > 3 ==> (r matches Err(Error::Diagnostic) && final(backend).slides.depth() == old(
                backend,
            ).slides.depth() && final(backend).current_frame == old(backend).current_frame),
            level <= 3 ==> (r matches Ok((g, out)) && g.level == level && g.label == label
                && final(backend).slides.depth() == smin(old(backend).slides.depth(), level - 1)
                && final(backend).current_frame.0 == old(backend).current_frame.0 + count_end_frames(
                close_all(old(backend).slides.depth(), level as int).0,
            ) && out@ == close_all(old(backend).slides.depth(), level as int).1 + "\\"@
                + crate::latex_complex::repeat("sub"@, (level - 1) as nat) + "section{"@),
    {
        let (events, mut out) = match backend.slides.close_until(level, diagnostics) {
            Ok(x) => x,
            Err(e) => return Err(e),
        };
        backend.current_frame.advance_with(&events);
        let (_, h) = crate::latex_complex::HeaderGen::new(level, String::new());
        push_str(&mut out, h.as_str());
        Ok((PseudoBeamerHeaderGen { level, label }, out))
    }

    /// Ends the heading and opens frames and boxes up to its level.
    pub fn finish(self, backend: &mut SlidesFfmpegEspeak, sectionframes: bool, frameheadings: bool) -> (r: String)
        requires
            old(backend).slides.wf(),
            0 < self.level <= 3,
            old(backend).current_frame.0 + count_end_frames(
                open_all(old(backend).slides.depth(), self.level as int, sectionframes, frameheadings).0,
            ) <= u32::MAX,
        ensures
            final(backend).slides.wf(),
            final(backend).slides.depth() == smax(old(backend).slides.depth(), self.level as int),
            final(backend).current_frame.0 == old(backend).current_frame.0 + count_end_frames(
                open_all(old(backend).slides.depth(), self.level as int, sectionframes, frameheadings).0,
            ),
            r@ == crate::latex_complex::header_end_text(self.label@) + open_all(
                old(backend).slides.depth(),
                self.level as int,
                sectionframes,
                frameheadings,
            ).1,
    {
        let mut out = crate::latex_complex::header_end(self.label.as_str());
        match backend.slides.open_up(self.level, sectionframes, frameheadings) {
            Ok((ev, t)) => {
                backend.current_frame.advance_with(&ev);
                push_str(&mut out, t.as_str());
            },
            Err(_) => {},
        }
        out
    }
}

/// Number of events `e` in `ev`.
pub open spec fn count_events(ev: Seq<FrameEvent>, e: FrameEvent) -> nat
    decreases ev.len(),
{
    if ev.len() == 0 {
        0
    } else {
        count_events(ev.drop_last(), e) + if ev.last() == e {
            1nat
        } else {
            0nat
        }
    }
}

proof fn lemma_count_concat(a: Seq<FrameEvent>, b: Seq<FrameEvent>, e: FrameEvent)
    ensures
        count_events(a + b, e) == count_events(a, e) + count_events(b, e),
    decreases b.len(),
{
    if b.len() == 0 {
        assert(a + b =~= a);
    } else {
        lemma_count_concat(a, b.drop_last(), e);
        assert((a + b).drop_last() =~= a + b.drop_last());
    }
}

/// Every frame and box that headings open is closed again: opening up to any level from
/// nothing and closing everything yields as many ends as beginnings, of frames and of boxes.
pub proof fn law_frames_balanced(k: int, sectionframes: bool, frameheadings: bool)
    requires
        0 <= k <= 3,
    ensures
        count_events(open_all(0, k, sectionframes, frameheadings).0 + close_all(k, 1).0, FrameEvent::BeginFrame)
            == count_events(
            open_all(0, k, sectionframes, frameheadings).0 + close_all(k, 1).0,
            FrameEvent::EndFrame,
        ),
        count_events(open_all(0, k, sectionframes, frameheadings).0 + close_all(k, 1).0, FrameEvent::BeginBox)
            == count_events(
            open_all(0, k, sectionframes, frameheadings).0 + close_all(k, 1).0,
            FrameEvent::EndBox,
        ),
{
    let o = open_all(0, k, sectionframes, frameheadings).0;
    let c = close_all(k, 1).0;
    lemma_count_concat(o, c, FrameEvent::BeginFrame);
    lemma_count_concat(o, c, FrameEvent::EndFrame);
    lemma_count_concat(o, c, FrameEvent::BeginBox);
    lemma_count_concat(o, c, FrameEvent::EndBox);
    let p1 = open_piece(1, sectionframes, frameheadings).0;
    let p2 = open_piece(2, sectionframes, frameheadings).0;
    let p3 = open_piece(3, sectionframes, frameheadings).0;
    let q2 = close_piece(2, 1).0;
    let q3 = close_piece(3, 1).0;
    let e: Seq<FrameEvent> = Seq::empty();
    assert(open_all(0, 0, sectionframes, frameheadings).0 == e);
    assert(open_all(0, 1, sectionframes, frameheadings).0 == e + p1);
    assert(open_all(0, 2, sectionframes, frameheadings).0 == e + p1 + p2);
    assert(open_all(0, 3, sectionframes, frameheadings).0 == e + p1 + p2 + p3);
    assert(close_all(0, 1).0 == e);
    assert(close_all(1, 1).0 == close_piece(1, 1).0 + e);
    assert(close_all(2, 1).0 == q2 + (close_piece(1, 1).0 + e));
    assert(close_all(3, 1).0 == q3 + (q2 + (close_piece(1, 1).0 + e)));
    reveal_with_fuel(count_events, 4);
    if sectionframes {
        assert(p1 =~= seq![FrameEvent::BeginFrame, FrameEvent::EndFrame]);
    } else {
        assert(p1 =~= e);
    }
    assert(close_piece(1, 1).0 =~= e);
    assert(p2 =~= seq![FrameEvent::BeginFrame]);
    assert(p3 =~= seq![FrameEvent::BeginBox]);
    assert(q2 =~= seq![FrameEvent::EndFrame]);
    assert(q3 =~= seq![FrameEvent::EndBox]);
    lemma_count_concat(e + p1, p2, FrameEvent::BeginFrame);
    lemma_count_concat(e + p1, p2, FrameEvent::EndFrame);
    lemma_count_concat(e + p1 + p2, p3, FrameEvent::BeginFrame);
    lemma_count_concat(e + p1 + p2, p3, FrameEvent::EndFrame);
    lemma_count_concat(e + p1 + p2, p3, FrameEvent::BeginBox);
    lemma_count_concat(e + p1 + p2, p3, FrameEvent::EndBox);
    lemma_count_concat(e, p1, FrameEvent::BeginFrame);
    lemma_count_concat(e, p1, FrameEvent::EndFrame);
    lemma_count_concat(e + p1, p2, FrameEvent::BeginBox);
    lemma_count_concat(e + p1, p2, FrameEvent::EndBox);
    lemma_count_concat(e, p1, FrameEvent::BeginBox);
    lemma_count_concat(e, p1, FrameEvent::EndBox);
    lemma_count_concat(q3, q2 + (close_piece(1, 1).0 + e), FrameEvent::EndFrame);
    lemma_count_concat(q3, q2 + (close_piece(1, 1).0 + e), FrameEvent::BeginFrame);
    lemma_count_concat(q3, q2 + (close_piece(1, 1).0 + e), FrameEvent::EndBox);
    lemma_count_concat(q3, q2 + (close_piece(1, 1).0 + e), FrameEvent::BeginBox);
    lemma_count_concat(q2, close_piece(1, 1).0 + e, FrameEvent::EndFrame);
    lemma_count_concat(q2, close_piece(1, 1).0 + e, FrameEvent::BeginFrame);
    lemma_count_concat(q2, close_piece(1, 1).0 + e, FrameEvent::EndBox);
    lemma_count_concat(q2, close_piece(1, 1).0 + e, FrameEvent::BeginBox);
    assert(close_piece(1, 1).0 + e =~= e);
    assert(e + p1 =~= p1);
}

} // verus!
