use vstd::prelude::*;
use vstd::string::StringExecFns;

use crate::content::{count_line, count_line_pre, count_pre, count_tagged, is_tagged};
use crate::strutil::dec_str;
use crate::types::{
    label_style, lines_view, link_style, links_view, plain_style, EngineError, LinkData, LinkType,
    LinkView, Span, SpanView, StyledLine,
};
use html2text::render::RichAnnotation;

verus! {

/// One markup annotation attached to a rendered run, as the engine reads it:
/// the target of a link, the source of an image, strong emphasis, or
/// anything else (which the engine ignores).
#[derive(Debug, Clone)]
pub enum Annot {
    Link(String),
    Image(String),
    Strong,
    Other,
}

/// The mathematical value of an `Annot`.
pub enum AnnotView {
    Link(Seq<char>),
    Image(Seq<char>),
    Strong,
    Other,
}

impl View for Annot {
    type V = AnnotView;

    open spec fn view(&self) -> AnnotView {
        match self {
            Annot::Link(t) => AnnotView::Link(t@),
            Annot::Image(s) => AnnotView::Image(s@),
            Annot::Strong => AnnotView::Strong,
            Annot::Other => AnnotView::Other,
        }
    }
}

/// One rendered run of markup text with its annotations, before styling.
#[derive(Debug, Clone)]
pub struct RunInput {
    pub text: String,
    pub annots: Vec<Annot>,
}

/// The mathematical value of a `RunInput`.
pub struct RunView {
    pub text: Seq<char>,
    pub annots: Seq<AnnotView>,
}

pub open spec fn deep_annots(annots: Seq<Annot>) -> Seq<AnnotView> {
    annots.map_values(|a: Annot| a@)
}

impl View for RunInput {
    type V = RunView;

    open spec fn view(&self) -> RunView {
        RunView { text: self.text@, annots: deep_annots(self.annots@) }
    }
}

pub open spec fn deep_line(line: Seq<RunInput>) -> Seq<RunView> {
    line.map_values(|r: RunInput| r@)
}

pub open spec fn deep_runs(v: Seq<Vec<RunInput>>) -> Seq<Seq<RunView>> {
    v.map_values(|line: Vec<RunInput>| deep_line(line@))
}

/// What the markup renderer produces for a document at a wrap width: the
/// runs of each rendered line, in order, or nothing when the document is
/// malformed beyond recovery.  The result depends on the markup bytes and
/// the width alone.
pub uninterp spec fn rich_runs_of(markup: Seq<char>, width: int) -> Option<Seq<Seq<RunView>>>;

/// Declares html2text's error type, so a wrapper can hand it back.
#[verifier::external_type_specification]
#[verifier::external_body]
pub struct ExHtmlError(html2text::Error);

/// Relies on html2text::from_read_rich: renders a markup document into
/// lines of tagged runs, wrapped to `width` columns, deterministically;
/// `TaggedLine::tagged_strings` walks one line's runs in order, and each
/// run carries its text and its annotations.  Annotations other than a
/// link target, an image source and strong emphasis are folded into
/// `Annot::Other`.
#[verifier::external_body]
fn parse_rich(markup: &str, width: usize) -> (r: Result<Vec<Vec<RunInput>>, html2text::Error>)
    ensures
        r matches Ok(v) ==> rich_runs_of(markup@, width as int) == Some(deep_runs(v@)),
        r is Err ==> rich_runs_of(markup@, width as int) is None,
{
    let lines = html2text::from_read_rich(markup.as_bytes(), width)?;
    Ok(lines.iter().map(|line| line.tagged_strings().map(|ts| RunInput {
        text: ts.s.clone(),
        annots: ts.tag.iter().map(|a| match a {
            RichAnnotation::Link(t) => Annot::Link(t.clone()),
            RichAnnotation::Image(src) => Annot::Image(src.clone()),
            RichAnnotation::Strong => Annot::Strong,
            _ => Annot::Other,
        }).collect(),
    }).collect()).collect())
}

/// What joining a reference against a base address yields: the serialized
/// absolute address, or nothing when the base does not parse or the join
/// fails.  The result depends on the two strings alone.
pub uninterp spec fn resolved_ref(base: Seq<char>, rel: Seq<char>) -> Option<Seq<char>>;

/// Relies on url::Url::parse and url::Url::join: parses the base address
/// and joins the reference against it; `Url::as_str` serializes the result.
#[verifier::external_body]
fn resolve_href(base: &str, rel: &str) -> (r: Option<String>)
    ensures
        r matches Some(s) ==> resolved_ref(base@, rel@) == Some(s@),
        r is None ==> resolved_ref(base@, rel@) is None,
{
    match url::Url::parse(base) {
        Ok(b) => match b.join(rel) {
            Ok(u) => Some(u.as_str().to_owned()),
            Err(_) => None,
        },
        Err(_) => None,
    }
}

/// A reference resolved against the base, degrading to the literal
/// reference text when it cannot be joined: resolution failure never
/// aborts a conversion.
pub open spec fn resolve_spec(base: Seq<char>, rel: Seq<char>) -> Seq<char> {
    match resolved_ref(base, rel) {
        Some(a) => a,
        None => rel,
    }
}

/// Resolves a reference against the base address, falling back to the
/// literal reference text.
pub fn resolve_or_literal(base: &str, rel: &str) -> (r: String)
    ensures
        r@ == resolve_spec(base@, rel@),
{
    match resolve_href(base, rel) {
        Some(s) => s,
        None => String::from_str(rel),
    }
}

/// The navigable target of a run: the last link or image annotation wins,
/// mirroring nested markup where the innermost annotation is listed last.
pub open spec fn link_of(annots: Seq<AnnotView>) -> Option<(Seq<char>, LinkType)>
    decreases annots.len(),
{
    if annots.len() == 0 {
        None
    } else {
        match annots.last() {
            AnnotView::Link(t) => Some((t, LinkType::Web)),
            AnnotView::Image(s) => Some((s, LinkType::Image)),
            _ => link_of(annots.drop_last()),
        }
    }
}

/// Whether any annotation asks for strong emphasis.
pub open spec fn bold_of(annots: Seq<AnnotView>) -> bool
    decreases annots.len(),
{
    if annots.len() == 0 {
        false
    } else {
        bold_of(annots.drop_last()) || annots.last() is Strong
    }
}

/// One pass over a run's annotations: the run's navigable target, if any
/// (the last link or image annotation wins), and whether it is emphasised.
fn scan_annots(annots: &Vec<Annot>) -> (r: (Option<(String, LinkType)>, bool))
    ensures
        match r.0 {
            Some(p) => link_of(deep_annots(annots@)) == Some((p.0@, p.1)),
            None => link_of(deep_annots(annots@)) is None,
        },
        r.1 == bold_of(deep_annots(annots@)),
{
    let ghost av = deep_annots(annots@);
    let mut cur: Option<(String, LinkType)> = None;
    let mut bold: bool = false;
    let mut j: usize = 0;
    proof {
        assert(av.take(0) =~= Seq::<AnnotView>::empty());
    }
    while j < annots.len()
        invariant
            0 <= j <= annots@.len(),
            av == deep_annots(annots@),
            av.len() == annots@.len(),
            forall|k: int| 0 <= k < annots@.len() ==> av[k] == #[trigger] annots@[k]@,
            match cur {
                Some(p) => link_of(av.take(j as int)) == Some((p.0@, p.1)),
                None => link_of(av.take(j as int)) is None,
            },
            bold == bold_of(av.take(j as int)),
        decreases annots@.len() - j,
    {
        proof {
            assert(av.take(j + 1).drop_last() =~= av.take(j as int));
            assert(av.take(j + 1).last() == av[j as int]);
        }
        match &annots[j] {
            Annot::Link(t) => {
                cur = Some((t.clone(), LinkType::Web));
            },
            Annot::Image(s) => {
                cur = Some((s.clone(), LinkType::Image));
            },
            Annot::Strong => {
                bold = true;
            },
            Annot::Other => {},
        }
        j = j + 1;
    }
    proof {
        assert(av.take(annots@.len() as int) =~= av);
    }
    (cur, bold)
}

/// The `[k]` index label span put in front of the `k`-th link.
pub open spec fn label_span_v(k: nat) -> SpanView {
    SpanView { text: seq!['['] + dec_str(k) + seq![']'], style: label_style(), role: None }
}

/// The visible text of a navigable target, tagged with its role.
pub open spec fn link_span_v(text: Seq<char>, kind: LinkType) -> SpanView {
    SpanView { text: text, style: link_style(kind), role: Some(kind) }
}

/// An ordinary prose run, untagged.
pub open spec fn plain_span_v(text: Seq<char>, bold: bool) -> SpanView {
    SpanView { text: text, style: plain_style(bold), role: None }
}

/// The spans one run contributes, given that `k` links were found before it.
pub open spec fn run_spans_v(run: RunView, k: nat) -> Seq<SpanView> {
    match link_of(run.annots) {
        Some(p) => seq![label_span_v(k), link_span_v(run.text, p.1)],
        None => seq![plain_span_v(run.text, bold_of(run.annots))],
    }
}

/// The link entry one run contributes, if any.
pub open spec fn run_link_v(run: RunView, base: Seq<char>) -> Option<LinkView> {
    match link_of(run.annots) {
        Some(p) => Some(LinkView { url: resolve_spec(base, p.0), kind: p.1 }),
        None => None,
    }
}

/// Link entries contributed by the first `j` runs of one line.
pub open spec fn line_links_pre(line: Seq<RunView>, base: Seq<char>, j: int) -> Seq<LinkView>
    decreases j,
{
    if j <= 0 {
        Seq::empty()
    } else {
        line_links_pre(line, base, j - 1) + (match run_link_v(line[j - 1], base) {
            Some(l) => seq![l],
            None => Seq::<LinkView>::empty(),
        })
    }
}

/// Link entries contributed by one whole line.
pub open spec fn line_links(line: Seq<RunView>, base: Seq<char>) -> Seq<LinkView> {
    line_links_pre(line, base, line.len() as int)
}

/// Spans of the first `j` runs of one line, with `k0` links found in
/// earlier lines.
pub open spec fn line_spans_pre(line: Seq<RunView>, base: Seq<char>, k0: nat, j: int) -> Seq<
    SpanView,
>
    decreases j,
{
    if j <= 0 {
        Seq::empty()
    } else {
        line_spans_pre(line, base, k0, j - 1) + run_spans_v(
            line[j - 1],
            k0 + line_links_pre(line, base, j - 1).len(),
        )
    }
}

/// Spans of one whole line.
pub open spec fn line_spans(line: Seq<RunView>, base: Seq<char>, k0: nat) -> Seq<SpanView> {
    line_spans_pre(line, base, k0, line.len() as int)
}

/// Link entries of the first `i` lines.
pub open spec fn conv_links_pre(runs: Seq<Seq<RunView>>, base: Seq<char>, i: int) -> Seq<LinkView>
    decreases i,
{
    if i <= 0 {
        Seq::empty()
    } else {
        conv_links_pre(runs, base, i - 1) + line_links(runs[i - 1], base)
    }
}

/// The ordered link list a conversion yields.
pub open spec fn conv_links(runs: Seq<Seq<RunView>>, base: Seq<char>) -> Seq<LinkView> {
    conv_links_pre(runs, base, runs.len() as int)
}

/// The styled lines of the first `i` lines.
pub open spec fn conv_lines_pre(runs: Seq<Seq<RunView>>, base: Seq<char>, i: int) -> Seq<
    Seq<SpanView>,
>
    decreases i,
{
    if i <= 0 {
        Seq::empty()
    } else {
        conv_lines_pre(runs, base, i - 1).push(
            line_spans(runs[i - 1], base, conv_links_pre(runs, base, i - 1).len()),
        )
    }
}

/// The styled line sequence a conversion yields.
pub open spec fn conv_lines(runs: Seq<Seq<RunView>>, base: Seq<char>) -> Seq<Seq<SpanView>> {
    conv_lines_pre(runs, base, runs.len() as int)
}

proof fn lemma_count_line_pre_ext(s1: Seq<SpanView>, s2: Seq<SpanView>, j: int)
    requires
        forall|k: int| 0 <= k < j ==> s1[k] == s2[k],
    ensures
        count_line_pre(s1, j) == count_line_pre(s2, j),
    decreases j,
{
    if j > 0 {
        lemma_count_line_pre_ext(s1, s2, j - 1);
    }
}

proof fn lemma_count_pre_ext(s1: Seq<Seq<SpanView>>, s2: Seq<Seq<SpanView>>, i: int)
    requires
        forall|k: int| 0 <= k < i ==> s1[k] == s2[k],
    ensures
        count_pre(s1, i) == count_pre(s2, i),
    decreases i,
{
    if i > 0 {
        lemma_count_pre_ext(s1, s2, i - 1);
    }
}

proof fn lemma_line_spans_count(line: Seq<RunView>, base: Seq<char>, k0: nat, j: int)
    requires
        0 <= j <= line.len(),
    ensures
        count_line(line_spans_pre(line, base, k0, j)) == line_links_pre(line, base, j).len(),
    decreases j,
{
    if j > 0 {
        lemma_line_spans_count(line, base, k0, j - 1);
        let prev = line_spans_pre(line, base, k0, j - 1);
        let added = run_spans_v(line[j - 1], k0 + line_links_pre(line, base, j - 1).len());
        let whole = line_spans_pre(line, base, k0, j);
        assert(whole == prev + added);
        lemma_count_line_pre_ext(whole, prev, prev.len() as int);
        match link_of(line[j - 1].annots) {
            Some(p) => {
                assert(whole.len() == prev.len() + 2);
                assert(whole[prev.len() as int] == label_span_v(
                    k0 + line_links_pre(line, base, j - 1).len(),
                ));
                assert(whole[prev.len() as int + 1] == link_span_v(line[j - 1].text, p.1));
                assert(!is_tagged(whole[prev.len() as int]));
                assert(is_tagged(whole[prev.len() as int + 1]));
                assert(count_line_pre(whole, prev.len() as int + 1) == count_line_pre(
                    whole,
                    prev.len() as int,
                ));
                assert(count_line_pre(whole, prev.len() as int + 2) == count_line_pre(
                    whole,
                    prev.len() as int,
                ) + 1);
            },
            None => {
                assert(whole.len() == prev.len() + 1);
                assert(whole[prev.len() as int] == plain_span_v(
                    line[j - 1].text,
                    bold_of(line[j - 1].annots),
                ));
                assert(count_line_pre(whole, prev.len() as int + 1) == count_line_pre(
                    whole,
                    prev.len() as int,
                ));
            },
        }
    }
}

proof fn lemma_conv_count_pre(runs: Seq<Seq<RunView>>, base: Seq<char>, i: int)
    requires
        0 <= i <= runs.len(),
    ensures
        conv_lines_pre(runs, base, i).len() == i,
        count_pre(conv_lines_pre(runs, base, i), i) == conv_links_pre(runs, base, i).len(),
    decreases i,
{
    if i > 0 {
        lemma_conv_count_pre(runs, base, i - 1);
        let prev = conv_lines_pre(runs, base, i - 1);
        let k0 = conv_links_pre(runs, base, i - 1).len();
        let added = line_spans(runs[i - 1], base, k0);
        let whole = conv_lines_pre(runs, base, i);
        assert(whole == prev.push(added));
        lemma_count_pre_ext(whole, prev, i - 1);
        assert(count_pre(whole, i) == count_pre(whole, i - 1) + count_line(whole[i - 1]));
        lemma_line_spans_count(runs[i - 1], base, k0, runs[i - 1].len() as int);
    }
}

/// Law: a conversion appends exactly one link entry per link-tagged run it
/// emits, so the length of the link list equals the number of link-tagged
/// runs across all lines.
pub proof fn lemma_links_match_tagged_runs(runs: Seq<Seq<RunView>>, base: Seq<char>)
    ensures
        count_tagged(conv_lines(runs, base)) == conv_links(runs, base).len(),
{
    lemma_conv_count_pre(runs, base, runs.len() as int);
}

/// Builds the `[k]` index label text.
fn make_label(k: usize) -> (r: String)
    ensures
        r@ == seq!['['] + dec_str(k as nat) + seq![']'],
{
    proof {
        reveal_strlit("[");
        reveal_strlit("]");
    }
    let mut s = String::from_str("[");
    let digits = crate::strutil::usize_to_dec(k);
    s.append(digits.as_str());
    s.append("]");
    proof {
        assert(s@ =~= seq!['['] + dec_str(k as nat) + seq![']']);
    }
    s
}

/// Turns a markup document into styled lines and the ordered list of
/// navigable targets it mentions, resolved against `base` and wrapped to
/// `width` columns.  Each link-tagged run is preceded by a `[k]` index
/// label and matched by exactly the `k`-th link entry; a document that
/// cannot be parsed at all is rejected, and nothing else is.
pub fn convert_markup(markup: &str, base: &str, width: usize) -> (r: Result<
    (Vec<StyledLine>, Vec<LinkData>),
    EngineError,
>)
    ensures
        match r {
            Ok(p) => {
                &&& rich_runs_of(markup@, width as int) matches Some(runs)
                    && lines_view(p.0@) == conv_lines(runs, base@)
                    && links_view(p.1@) == conv_links(runs, base@)
                &&& count_tagged(lines_view(p.0@)) == p.1@.len()
            },
            Err(e) => e is Parse && rich_runs_of(markup@, width as int) is None,
        },
{
    let rich: Vec<Vec<RunInput>> = match parse_rich(markup, width) {
        Ok(v) => v,
        Err(_) => {
            return Err(EngineError::Parse);
        },
    };
    let ghost runs_v = deep_runs(rich@);
    let mut out_lines: Vec<StyledLine> = Vec::new();
    let mut links: Vec<LinkData> = Vec::new();
    let mut i: usize = 0;
    while i < rich.len()
        invariant
            0 <= i <= rich@.len(),
            runs_v == deep_runs(rich@),
            runs_v.len() == rich@.len(),
            forall|k: int| 0 <= k < rich@.len() ==> runs_v[k] == deep_line(#[trigger] rich@[k]@),
            lines_view(out_lines@) == conv_lines_pre(runs_v, base@, i as int),
            out_lines@.len() == i,
            links_view(links@) == conv_links_pre(runs_v, base@, i as int),
            links@.len() == conv_links_pre(runs_v, base@, i as int).len(),
        decreases rich@.len() - i,
    {
        let line = &rich[i];
        let ghost line_v = deep_line(line@);
        let ghost k0 = conv_links_pre(runs_v, base@, i as int).len();
        let mut spans: Vec<Span> = Vec::new();
        let mut j: usize = 0;
        while j < line.len()
            invariant
                0 <= j <= line@.len(),
                line_v == deep_line(line@),
                line_v.len() == line@.len(),
                forall|k: int| 0 <= k < line@.len() ==> line_v[k] == #[trigger] line@[k]@,
                spans@.map_values(|s: Span| s@) == line_spans_pre(line_v, base@, k0, j as int),
                links_view(links@) == conv_links_pre(runs_v, base@, i as int) + line_links_pre(
                    line_v,
                    base@,
                    j as int,
                ),
                links@.len() == k0 + line_links_pre(line_v, base@, j as int).len(),
            decreases line@.len() - j,
        {
            let run = &line[j];
            let (target_opt, bold) = scan_annots(&run.annots);
            proof {
                assert(line_v[j as int] == run@);
                assert(run@.annots == deep_annots(run.annots@));
            }
            match target_opt {
                Some(p) => {
                    let (target, kind) = p;
                    let k = links.len();
                    let label = make_label(k);
                    let label_span = Span {
                        text: label,
                        style: crate::types::make_label_style(),
                        role: None,
                    };
                    let text_span = Span {
                        text: run.text.clone(),
                        style: crate::types::make_link_style(kind),
                        role: Some(kind),
                    };
                    let resolved = resolve_or_literal(base, target.as_str());
                    spans.push(label_span);
                    spans.push(text_span);
                    let ghost old_links = links@;
                    links.push(LinkData { url: resolved, link_type: kind });
                    proof {
                        assert(label_span@ == label_span_v(k as nat));
                        assert(text_span@ == link_span_v(run@.text, kind));
                        assert(spans@.map_values(|s: Span| s@) =~= line_spans_pre(
                            line_v,
                            base@,
                            k0,
                            j as int,
                        ) + run_spans_v(line_v[j as int], k0 + line_links_pre(
                            line_v,
                            base@,
                            j as int,
                        ).len()));
                        assert(link_of(line_v[j as int].annots) == Some((target@, kind)));
                        assert(run_link_v(line_v[j as int], base@) == Some(
                            LinkView { url: resolve_spec(base@, target@), kind: kind },
                        ));
                        let new_lv = LinkView { url: resolve_spec(base@, target@), kind: kind };
                        assert(links@.last()@ == new_lv);
                        assert(links_view(links@) =~= links_view(links@.drop_last()).push(new_lv));
                        assert(links@.drop_last() =~= old_links);
                        assert(line_links_pre(line_v, base@, j as int + 1) =~= line_links_pre(
                            line_v,
                            base@,
                            j as int,
                        ) + seq![new_lv]);
                        assert(links_view(links@) =~= conv_links_pre(runs_v, base@, i as int)
                            + line_links_pre(line_v, base@, j + 1));
                    }
                },
                None => {
                    let text_span = Span {
                        text: run.text.clone(),
                        style: crate::types::make_plain_style(bold),
                        role: None,
                    };
                    spans.push(text_span);
                    proof {
                        assert(text_span@ == plain_span_v(run@.text, bold_of(run@.annots)));
                        assert(run_link_v(line_v[j as int], base@) is None);
                        assert(spans@.map_values(|s: Span| s@) =~= line_spans_pre(
                            line_v,
                            base@,
                            k0,
                            j as int,
                        ) + run_spans_v(line_v[j as int], k0 + line_links_pre(
                            line_v,
                            base@,
                            j as int,
                        ).len()));
                        assert(line_links_pre(line_v, base@, j as int + 1) =~= line_links_pre(
                            line_v,
                            base@,
                            j as int,
                        ));
                        assert(links_view(links@) =~= conv_links_pre(runs_v, base@, i as int)
                            + line_links_pre(line_v, base@, j + 1));
                    }
                },
            }
            j = j + 1;
        }
        let new_line = StyledLine { spans };
        out_lines.push(new_line);
        proof {
            assert(line_links_pre(line_v, base@, line_v.len() as int) == line_links(line_v, base@));
            assert(new_line@ == line_spans(line_v, base@, k0));
            assert(lines_view(out_lines@) =~= conv_lines_pre(runs_v, base@, i + 1));
            assert(links_view(links@) =~= conv_links_pre(runs_v, base@, i + 1));
        }
        i = i + 1;
    }
    proof {
        assert(lines_view(out_lines@) == conv_lines(runs_v, base@));
        assert(links_view(links@) == conv_links(runs_v, base@));
        lemma_links_match_tagged_runs(runs_v, base@);
        assert(links@.len() == links_view(links@).len());
    }
    Ok((out_lines, links))
}

} // verus!
