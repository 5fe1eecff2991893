use pundoc::beamer::{
    Beamer, BeamerHeaderGen, BeamerPageBreakGen, CurrentFrame, FrameEvent, PseudoBeamerHeaderGen,
    PseudoBeamerRuleGen, SlidesFfmpegEspeak,
};
use pundoc::error::{DiagnosticCode, Error, Fatal};
use pundoc::event::{BiberReference, FootnoteReference, Graphviz, InterLink, TaskListMarker, Url};
use pundoc::latex::{
    AppendixGen, BiberReferencesGen, FootnoteReferenceGen, GraphvizGen, HardBreakGen, Image,
    ImageGen, InlineEnvironment, LabelGen, PdfGen, SimpleCodeGenUnit, TableOfContentsGen,
    TaskListMarkerGen, UrlGen,
};
use pundoc::latex_complex::{
    header_end, BlockQuoteGen, EnumerateGen, HeaderGen, ListGen, ParagraphGen,
};
use pundoc::number::{push_decimal, push_signed_decimal};
use pundoc::range::{SourceRange, WithRange};
use pundoc::size::SizeUnit;

fn wr(s: &str) -> Option<WithRange<String>> {
    Some(WithRange(s.to_string(), SourceRange { start: 0, end: 0 }))
}

#[test]
fn beamer_opens_and_closes_frames() {
    let mut b = Beamer::new();
    let (ev, out) = b.open_until(3, true, true, &mut Vec::new()).unwrap();
    assert_eq!(
        ev,
        vec![FrameEvent::BeginFrame, FrameEvent::EndFrame, FrameEvent::BeginFrame, FrameEvent::BeginBox]
    );
    assert_eq!(
        out,
        "\\begin{frame}\n\\Huge\\centering \\insertsection\n\\end{frame}\n\n\\begin{frame}[fragile]\n\\frametitle{\\insertsection}\n\\framesubtitle{\\insertsubsection}\n\\begin{beamerboxesrounded}{\\insertsubsubsection}\n"
    );
    let (ev, out) = b.close_until(1, &mut Vec::new()).unwrap();
    assert_eq!(ev, vec![FrameEvent::EndBox, FrameEvent::EndFrame]);
    assert_eq!(out, "\\end{beamerboxesrounded}\n\\end{frame}\n\n");
    // the shown frame advances with each frame that ends
    let mut frame = CurrentFrame(0);
    frame.advance_with(&vec![FrameEvent::BeginFrame, FrameEvent::EndFrame, FrameEvent::BeginFrame]);
    assert_eq!(frame.get(), 1);
}

#[test]
fn beamer_refuses_deep_headings() {
    let mut b = Beamer::new();
    let mut d = Vec::new();
    assert!(matches!(b.close_until(4, &mut d), Err(Error::Diagnostic)));
    assert!(matches!(b.open_until(4, false, false, &mut d), Err(Error::Diagnostic)));
    assert!(matches!(BeamerHeaderGen::new(&mut b, 4, "x".to_string(), &mut d), Err(Error::Diagnostic)));
    assert_eq!(d.len(), 3);
    assert!(d.iter().all(|c| matches!(c, DiagnosticCode::InvalidHeaderLevel)));
    assert!(b.close_until(3, &mut d).is_ok());
    assert_eq!(d.len(), 3);
}

#[test]
fn beamer_heading_and_page_break() {
    let mut b = Beamer::new();
    let (g, out) = BeamerHeaderGen::new(&mut b, 2, "intro".to_string(), &mut Vec::new()).unwrap();
    assert_eq!(out, "\\subsection{");
    let out = g.finish(&mut b, false, false).unwrap();
    assert_eq!(out, "}\\label{intro}\n\n\\begin{frame}[fragile]\n");
    let out = BeamerPageBreakGen::finish(&mut b, false, false);
    assert_eq!(out, "\\end{frame}\n\n\\begin{frame}[fragile]\n");
}

#[test]
fn leaf_generators() {
    assert_eq!(LabelGen::gen("x"), "\\label{x}\n");
    assert_eq!(PdfGen::gen("a.pdf"), "\\includepdf[pages=-]{a.pdf}\n");
    assert_eq!(HardBreakGen::gen(true), "\\newline");
    assert_eq!(HardBreakGen::gen(false), "\\\\\n");
    assert_eq!(TaskListMarkerGen::gen(TaskListMarker { checked: true }), "[$\\boxtimes$] ");
    assert_eq!(TaskListMarkerGen::gen(TaskListMarker { checked: false }), "[$\\square$] ");
    assert_eq!(TableOfContentsGen::gen(()), "\\tableofcontents\n");
    assert_eq!(
        AppendixGen::gen(()),
        "\\appendix{}\n\\renewcommand\\thelstlisting{\\Alph{lstlisting}}\n\\setcounter{lstlisting}{0}\n"
    );
    assert_eq!(
        FootnoteReferenceGen::gen(&FootnoteReference { label: "n1".to_string() }),
        "\\footnotemark[\\getrefnumber{fnote:n1}]"
    );
    assert_eq!(
        UrlGen::gen(&Url { destination: "https://x.org".to_string(), title: None }),
        "\\url{https://x.org}"
    );
    let _ = InterLink { label: "a".to_string(), uppercase: false };
}

#[test]
fn citations() {
    let one = vec![BiberReference { reference: "knuth".to_string(), attributes: Some("p. 5".to_string()) }];
    assert_eq!(BiberReferencesGen::gen(&one), "\\cite[p. 5]{knuth}");
    let two = vec![
        BiberReference { reference: "a".to_string(), attributes: None },
        BiberReference { reference: "b".to_string(), attributes: Some("ch. 2".to_string()) },
    ];
    assert_eq!(BiberReferencesGen::gen(&two), "\\cites{a}[ch. 2]{b}");
}

#[test]
fn images_and_graphs() {
    let img = Image {
        label: None,
        caption: None,
        title: None,
        alt_text: None,
        path: "cat.png".to_string(),
        scale: None,
        width: wr("3cm"),
        height: None,
    };
    assert_eq!(ImageGen::gen(img), "\\includegraphics[width=3cm,]{cat.png}\n");
    let g = Graphviz { label: None, caption: None, scale: wr("2"), width: None, height: wr("1cm") };
    assert_eq!(GraphvizGen::finish(g, "/tmp/graphviz_0"), "\\includegraphics[scale=2,height=1cm,]{/tmp/graphviz_0.pdf}\n");
    let g = Graphviz { label: wr("g"), caption: wr("A graph"), scale: None, width: None, height: None };
    assert_eq!(
        GraphvizGen::finish(g, "g0"),
        "\\begin{figure}[H]\n\\includegraphics[]{g0.pdf}\n\\caption{A graph}\n\\label{g}\n\\end{figure}\n"
    );
}

#[test]
fn inline_environment_without_label_or_caption_is_empty() {
    let env = InlineEnvironment::new_figure(None, None);
    assert_eq!(env.write_begin(), "");
    assert_eq!(env.write_end(), "");
    let env = InlineEnvironment::new_table(None, wr("T"));
    assert_eq!(env.write_begin(), "\\begin{table}[H]\n");
    assert_eq!(env.write_end(), "\\caption*{T}\n\\end{table}\n");
}

#[test]
fn headings_lists_and_paragraphs() {
    let (h, out) = HeaderGen::new(3, "deep".to_string());
    assert_eq!(out, "\\subsubsection{");
    assert_eq!(h.finish(), "}\\label{deep}\n\n");
    assert_eq!(header_end("a"), "}\\label{a}\n\n");
    assert_eq!(ListGen::begin(false), "\\begin{itemize}\n");
    assert_eq!(
        ListGen::begin(true),
        "\\begin{itemize}\n\\setlength{\\itemsep}{0pt}\\setlength{\\parskip}{0pt}\n"
    );
    assert_eq!(EnumerateGen::begin(3, 2), "\\begin{enumerate}\n\\setcounter{enumii}{2}\n");
    assert_eq!(EnumerateGen::begin(0, 1), "\\begin{enumerate}\n\\setcounter{enumi}{-1}\n");
    assert_eq!(ParagraphGen::finish(false), "\n\n");
    assert_eq!(ParagraphGen::finish(true), "");
}

#[test]
fn block_quotes_with_and_without_source() {
    let mut q = BlockQuoteGen::new();
    q.write("To be.\n");
    assert_eq!(q.finish(), "\\begin{quote}\nTo be.\n\\end{quote}\n");
}

#[test]
fn decimals() {
    let mut s = String::new();
    push_decimal(&mut s, 0);
    push_decimal(&mut s, 4096);
    push_signed_decimal(&mut s, -12);
    assert_eq!(s, "04096-12");
}

#[test]
fn size_units_by_suffix() {
    assert!(SizeUnit::from_suffix("cm").is_some());
    assert!(SizeUnit::from_suffix("furlong").is_none());
}

#[test]
fn errors_and_codes() {
    assert_eq!(DiagnosticCode::MultipleLabels.code(), "0008");
    assert_eq!(Fatal::InternalCompilerError.to_string(), "can not continue due to internal error");
    assert_eq!(
        Error::Fatal(Fatal::Output("disk full".to_string())).to_string(),
        "fatal error: output file write error: disk full"
    );
    assert_eq!(Error::Diagnostic.to_string(), "error during event handling, diagnostic written");
}


#[test]
fn narrated_slides_count_frames() {
    let mut s = SlidesFfmpegEspeak::new();
    let (g, out) = PseudoBeamerHeaderGen::new(&mut s, 2, "a".to_string(), &mut Vec::new()).unwrap();
    assert_eq!(out, "\\subsection{");
    assert_eq!(g.finish(&mut s, false, false), "}\\label{a}\n\n\\begin{frame}[fragile]\n");
    assert_eq!(s.current_frame.get(), 0);
    let out = PseudoBeamerRuleGen::finish(&mut s, false, false);
    assert_eq!(out, "\\end{frame}\n\n\\begin{frame}[fragile]\n");
    assert_eq!(s.current_frame.get(), 1);
    let mut d = Vec::new();
    assert!(PseudoBeamerHeaderGen::new(&mut s, 5, "b".to_string(), &mut d).is_err());
    assert!(matches!(d[..], [DiagnosticCode::InvalidHeaderLevel]));
}

#[test]
fn signed_decimal_of_the_smallest_i64() {
    let mut s = String::new();
    push_signed_decimal(&mut s, i64::MIN);
    assert_eq!(s, "-9223372036854775808");
}
