use vstd::prelude::*;
use vstd::string::StrSliceExecFns;
use vstd::string::StringExecFns;

use crate::cmd::{parse_cmd_spec, parse_command, Command, CommandView};
use crate::content::{count_tagged, is_tagged, render_highlight, tagged_before};
use crate::imagetext::{grid_quantizes, image_to_text, meta_rejected, meta_rows};
use crate::markup::{conv_lines, conv_links, convert_markup, rich_runs_of};
use crate::strutil::{has_prefix, has_prefix_spec};
use crate::types::{
    highlight_of, lines_view, links_view, EngineError, LinkData, Mode, StyledLine,
};

verus! {

/// The navigation-relevant part of a session: the current address and the
/// two history stacks, as character sequences.
pub struct NavView {
    pub current: Seq<char>,
    pub history: Seq<Seq<char>>,
    pub future: Seq<Seq<char>>,
}

/// An address as the engine keeps it: input without a scheme defaults to
/// `https`.
pub open spec fn with_scheme(u: Seq<char>) -> Seq<char> {
    if has_prefix_spec(u, "http://"@) || has_prefix_spec(u, "https://"@) {
        u
    } else {
        "https://"@ + u
    }
}

/// A fresh navigation: the current address (unless unset) is pushed onto
/// the back stack, the forward stack is cleared, and the target becomes
/// current.
pub open spec fn nav_step(n: NavView, url: Seq<char>) -> NavView {
    NavView {
        current: with_scheme(url),
        history: if n.current.len() > 0 {
            n.history.push(n.current)
        } else {
            n.history
        },
        future: Seq::empty(),
    }
}

/// One back step: the top of the back stack becomes current and the
/// undone address moves onto the forward stack; with no back history,
/// nothing changes.
pub open spec fn back_step(n: NavView) -> NavView {
    if n.history.len() == 0 {
        n
    } else {
        NavView {
            current: n.history.last(),
            history: n.history.drop_last(),
            future: n.future.push(n.current),
        }
    }
}

/// One forward step, symmetric to `back_step`.
pub open spec fn forward_step(n: NavView) -> NavView {
    if n.future.len() == 0 {
        n
    } else {
        NavView {
            current: n.future.last(),
            history: n.history.push(n.current),
            future: n.future.drop_last(),
        }
    }
}

/// Law: a fresh navigation always clears the forward stack, whatever the
/// session did before.
pub proof fn lemma_navigate_clears_future(n: NavView, url: Seq<char>)
    ensures
        nav_step(n, url).future.len() == 0,
{
}

proof fn lemma_with_scheme_nonempty(u: Seq<char>)
    ensures
        with_scheme(u).len() > 0,
{
    reveal_strlit("http://");
    reveal_strlit("https://");
    if has_prefix_spec(u, "http://"@) || has_prefix_spec(u, "https://"@) {
    } else {
        assert(("https://"@ + u).len() == 8 + u.len());
    }
}

/// Law: after navigating to `a` and then to `b`, one back step restores
/// `a` as the current address, leaves the back stack as it stood after the
/// first navigation, and leaves exactly the undone `b` on the forward
/// stack (so one more forward step would return to `b`).
pub proof fn lemma_nav_nav_back(n: NavView, a: Seq<char>, b: Seq<char>)
    ensures
        back_step(nav_step(nav_step(n, a), b)).current == with_scheme(a),
        back_step(nav_step(nav_step(n, a), b)).history =~= nav_step(n, a).history,
        back_step(nav_step(nav_step(n, a), b)).future =~= seq![with_scheme(b)],
{
    lemma_with_scheme_nonempty(a);
    let n1 = nav_step(n, a);
    let n2 = nav_step(n1, b);
    assert(n2.history == n1.history.push(with_scheme(a)));
    assert(n2.history.last() == with_scheme(a));
    assert(n2.history.drop_last() =~= n1.history);
}

/// Law: one back step followed by one forward step restores the current
/// address and both stacks exactly, as long as some back history exists.
pub proof fn lemma_back_forward_round_trip(n: NavView)
    requires
        n.history.len() > 0,
    ensures
        forward_step(back_step(n)).current == n.current,
        forward_step(back_step(n)).history =~= n.history,
        forward_step(back_step(n)).future =~= n.future,
{
    let m = back_step(n);
    assert(m.future.len() > 0);
    assert(m.future.last() == n.current);
    assert(m.future.drop_last() =~= n.future);
    assert(m.history.push(m.current) =~= n.history);
}

/// The whole session: the current address, the converted content with its
/// link list and selection, the scroll offset, the status line, the mode
/// machine with its command buffer, the two history stacks, and at most
/// one open image preview.
pub struct App {
    pub current_url: String,
    pub content_lines: Vec<StyledLine>,
    pub links: Vec<LinkData>,
    pub selected_link_idx: usize,
    pub scroll: u16,
    pub status: String,
    pub mode: Mode,
    pub command_buffer: String,
    pub history: Vec<String>,
    pub future: Vec<String>,
    pub image_preview: Option<Vec<String>>,
}

impl App {
    /// The navigation view of this session.
    pub open spec fn nav(self) -> NavView {
        NavView {
            current: self.current_url@,
            history: self.history.deep_view(),
            future: self.future.deep_view(),
        }
    }

    /// Well-formed sessions: the selection stays inside the link list
    /// (and parks at 0 when the list is empty), and the link list is
    /// exactly as long as the number of link-tagged runs in the content —
    /// the correspondence every highlight rests on.
    pub open spec fn wf(self) -> bool {
        &&& self.links@.len() == 0 ==> self.selected_link_idx == 0
        &&& self.links@.len() > 0 ==> (self.selected_link_idx as int) < self.links@.len()
        &&& count_tagged(lines_view(self.content_lines@)) == self.links@.len()
    }

    /// A fresh session: the start address, empty content and history, and
    /// normal mode.
    pub fn new(start_url: &str) -> (a: App)
        ensures
            a.wf(),
            a.current_url@ == start_url@,
            a.content_lines@.len() == 0,
            a.links@.len() == 0,
            a.selected_link_idx == 0,
            a.scroll == 0,
            a.status@ == "Voyager Ready"@,
            a.mode is Normal,
            a.command_buffer@.len() == 0,
            a.history@.len() == 0,
            a.future@.len() == 0,
            a.image_preview is None,
    {
        let a = App {
            current_url: String::from_str(start_url),
            content_lines: Vec::new(),
            links: Vec::new(),
            selected_link_idx: 0,
            scroll: 0,
            status: String::from_str("Voyager Ready"),
            mode: Mode::Normal,
            command_buffer: String::new(),
            history: Vec::new(),
            future: Vec::new(),
            image_preview: None,
        };
        proof {
            assert(lines_view(a.content_lines@) =~= Seq::<Seq<crate::types::SpanView>>::empty());
        }
        a
    }

    /// A fresh navigation: pushes the current address onto the back
    /// stack (unless unset), clears the forward stack and makes the
    /// target current.  Content is untouched: the embedding program
    /// fetches the page and hands its markup to `load_markup`.
    pub fn navigate(&mut self, url: String)
        requires
            old(self).wf(),
        ensures
            final(self).wf(),
            final(self).nav() == nav_step(old(self).nav(), url@),
            final(self).content_lines == old(self).content_lines,
            final(self).links == old(self).links,
            final(self).selected_link_idx == old(self).selected_link_idx,
            final(self).scroll == old(self).scroll,
            final(self).status == old(self).status,
            final(self).mode == old(self).mode,
            final(self).command_buffer == old(self).command_buffer,
            final(self).image_preview == old(self).image_preview,
    {
        let target = if has_prefix(url.as_str(), "http://") || has_prefix(
            url.as_str(),
            "https://",
        ) {
            url
        } else {
            let mut s = String::from_str("https://");
            s.append(url.as_str());
            s
        };
        if !self.current_url.as_str().is_empty() {
            let ghost old_h = self.history.deep_view();
            let cur = self.current_url.clone();
            self.history.push(cur);
            proof {
                assert(self.history.deep_view() =~= old_h.push(old(self).current_url@));
            }
        }
        self.future.clear();
        self.current_url = target;
        proof {
            assert(self.future.deep_view() =~= Seq::<Seq<char>>::empty());
            assert(self.nav().history =~= nav_step(old(self).nav(), url@).history);
            assert(self.nav() == nav_step(old(self).nav(), url@));
        }
    }

    /// One back step; reports whether the session moved.  With no back
    /// history only the status line changes.
    pub fn go_back(&mut self) -> (moved: bool)
        requires
            old(self).wf(),
        ensures
            final(self).wf(),
            moved == (old(self).history@.len() > 0),
            final(self).nav() == back_step(old(self).nav()),
            final(self).content_lines == old(self).content_lines,
            final(self).links == old(self).links,
            final(self).selected_link_idx == old(self).selected_link_idx,
            final(self).scroll == old(self).scroll,
            final(self).mode == old(self).mode,
            final(self).command_buffer == old(self).command_buffer,
            final(self).image_preview == old(self).image_preview,
            moved ==> final(self).status == old(self).status,
            !moved ==> final(self).status@ == "No back history"@,
    {
        let popped = self.history.pop();
        match popped {
            Some(prev) => {
                let ghost old_f = self.future.deep_view();
                let cur = self.current_url.clone();
                self.future.push(cur);
                self.current_url = prev;
                proof {
                    assert(self.history.deep_view() =~= old(self).history.deep_view().drop_last());
                    assert(self.future.deep_view() =~= old_f.push(old(self).current_url@));
                    assert(prev@ == old(self).history.deep_view().last());
                    assert(self.nav() == back_step(old(self).nav()));
                }
                true
            },
            None => {
                self.status = String::from_str("No back history");
                proof {
                    assert(self.nav() == back_step(old(self).nav()));
                }
                false
            },
        }
    }

    /// One forward step; reports whether the session moved.  With no
    /// forward history only the status line changes.
    pub fn go_forward(&mut self) -> (moved: bool)
        requires
            old(self).wf(),
        ensures
            final(self).wf(),
            moved == (old(self).future@.len() > 0),
            final(self).nav() == forward_step(old(self).nav()),
            final(self).content_lines == old(self).content_lines,
            final(self).links == old(self).links,
            final(self).selected_link_idx == old(self).selected_link_idx,
            final(self).scroll == old(self).scroll,
            final(self).mode == old(self).mode,
            final(self).command_buffer == old(self).command_buffer,
            final(self).image_preview == old(self).image_preview,
            moved ==> final(self).status == old(self).status,
            !moved ==> final(self).status@ == "No forward history"@,
    {
        let popped = self.future.pop();
        match popped {
            Some(next) => {
                let ghost old_h = self.history.deep_view();
                let cur = self.current_url.clone();
                self.history.push(cur);
                self.current_url = next;
                proof {
                    assert(self.future.deep_view() =~= old(self).future.deep_view().drop_last());
                    assert(self.history.deep_view() =~= old_h.push(old(self).current_url@));
                    assert(next@ == old(self).future.deep_view().last());
                    assert(self.nav() == forward_step(old(self).nav()));
                }
                true
            },
            None => {
                self.status = String::from_str("No forward history");
                proof {
                    assert(self.nav() == forward_step(old(self).nav()));
                }
                false
            },
        }
    }

    /// Moves the selection to the next link, wrapping past the end; with
    /// no links the selection stays parked at 0.
    pub fn select_next(&mut self)
        requires
            old(self).wf(),
        ensures
            final(self).wf(),
            old(self).links@.len() == 0 ==> final(self).selected_link_idx == 0,
            old(self).links@.len() > 0 ==> final(self).selected_link_idx as int == (old(
                self,
            ).selected_link_idx + 1) % (old(self).links@.len() as int),
            *final(self) == (App { selected_link_idx: final(self).selected_link_idx, ..*old(self) }),
    {
        if self.links.len() > 0 {
            self.selected_link_idx = (self.selected_link_idx + 1) % self.links.len();
        }
    }

    /// Moves the selection to the previous link, wrapping below 0; with
    /// no links the selection stays parked at 0.
    pub fn select_prev(&mut self)
        requires
            old(self).wf(),
        ensures
            final(self).wf(),
            old(self).links@.len() == 0 ==> final(self).selected_link_idx == 0,
            old(self).links@.len() > 0 ==> final(self).selected_link_idx as int == (
            if old(self).selected_link_idx == 0 {
                old(self).links@.len() - 1
            } else {
                old(self).selected_link_idx - 1
            }),
            *final(self) == (App { selected_link_idx: final(self).selected_link_idx, ..*old(self) }),
    {
        if self.links.len() > 0 {
            if self.selected_link_idx == 0 {
                self.selected_link_idx = self.links.len() - 1;
            } else {
                self.selected_link_idx = self.selected_link_idx - 1;
            }
        }
    }

    /// Scrolls down one row, saturating at the largest offset.
    pub fn scroll_down(&mut self)
        ensures
            final(self).scroll as int == (if old(self).scroll < u16::MAX {
                old(self).scroll + 1
            } else {
                old(self).scroll as int
            }),
            *final(self) == (App { scroll: final(self).scroll, ..*old(self) }),
            old(self).wf() ==> final(self).wf(),
    {
        if self.scroll < u16::MAX {
            self.scroll = self.scroll + 1;
        }
    }

    /// Scrolls up one row, saturating at 0.
    pub fn scroll_up(&mut self)
        ensures
            final(self).scroll as int == (if old(self).scroll > 0 {
                old(self).scroll - 1
            } else {
                0
            }),
            *final(self) == (App { scroll: final(self).scroll, ..*old(self) }),
            old(self).wf() ==> final(self).wf(),
    {
        if self.scroll > 0 {
            self.scroll = self.scroll - 1;
        }
    }

    /// Enters command mode with a cleared command buffer.
    pub fn enter_command(&mut self)
        ensures
            final(self).mode is Command,
            final(self).command_buffer@.len() == 0,
            *final(self) == (App {
                mode: final(self).mode,
                command_buffer: final(self).command_buffer,
                ..*old(self)
            }),
            old(self).wf() ==> final(self).wf(),
    {
        self.mode = Mode::Command;
        self.command_buffer = String::new();
    }

    /// Leaves command mode, discarding the buffer without executing it.
    pub fn cancel_command(&mut self)
        ensures
            final(self).mode is Normal,
            final(self).command_buffer@.len() == 0,
            *final(self) == (App {
                mode: final(self).mode,
                command_buffer: final(self).command_buffer,
                ..*old(self)
            }),
            old(self).wf() ==> final(self).wf(),
    {
        self.mode = Mode::Normal;
        self.command_buffer = String::new();
    }

    /// Appends one typed character to the command buffer.
    pub fn push_command_char(&mut self, c: char)
        ensures
            final(self).command_buffer@ == old(self).command_buffer@.push(c),
            *final(self) == (App { command_buffer: final(self).command_buffer, ..*old(self) }),
            old(self).wf() ==> final(self).wf(),
    {
        push_char(&mut self.command_buffer, c);
    }

    /// Removes the last character of the command buffer, if any.
    pub fn pop_command_char(&mut self)
        ensures
            final(self).command_buffer@ == (if old(self).command_buffer@.len() > 0 {
                old(self).command_buffer@.drop_last()
            } else {
                old(self).command_buffer@
            }),
            *final(self) == (App { command_buffer: final(self).command_buffer, ..*old(self) }),
            old(self).wf() ==> final(self).wf(),
    {
        pop_char(&mut self.command_buffer);
    }

    /// Leaves command mode and reads the buffered command; an
    /// unrecognized word only puts a message in the status line.  The
    /// caller performs what the command asks (quitting, fetching), and
    /// drives `go_back`, `go_forward` or `navigate` accordingly.
    pub fn submit_command(&mut self) -> (cmd: Command)
        ensures
            final(self).mode is Normal,
            cmd@ == parse_cmd_spec(old(self).command_buffer@),
            match cmd@ {
                CommandView::Unknown(t) => final(self).status@ == "Unknown command: "@ + t,
                _ => final(self).status == old(self).status,
            },
            *final(self) == (App {
                mode: final(self).mode,
                status: final(self).status,
                ..*old(self)
            }),
            old(self).wf() ==> final(self).wf(),
    {
        self.mode = Mode::Normal;
        let cmd = parse_command(self.command_buffer.as_str());
        match &cmd {
            Command::Unknown(t) => {
                let mut st = String::from_str("Unknown command: ");
                st.append(t.as_str());
                self.status = st;
            },
            _ => {},
        }
        cmd
    }

    /// Replaces the status line; the embedding program reports transport
    /// failures through this.
    pub fn set_status(&mut self, msg: &str)
        ensures
            final(self).status@ == msg@,
            *final(self) == (App { status: final(self).status, ..*old(self) }),
            old(self).wf() ==> final(self).wf(),
    {
        self.status = String::from_str(msg);
    }

    /// Converts fetched markup and replaces content, links, selection and
    /// scroll atomically; on failure the session is left exactly as it
    /// was.  The current address is the resolution base.
    pub fn load_markup(&mut self, markup: &str, width: usize) -> (r: Result<(), EngineError>)
        requires
            old(self).wf(),
        ensures
            final(self).wf(),
            match r {
                Ok(()) => {
                    &&& rich_runs_of(markup@, width as int) matches Some(runs)
                        && lines_view(final(self).content_lines@) == conv_lines(
                        runs,
                        old(self).current_url@,
                    ) && links_view(final(self).links@) == conv_links(
                        runs,
                        old(self).current_url@,
                    )
                    &&& final(self).selected_link_idx == 0
                    &&& final(self).scroll == 0
                    &&& final(self).status@ == "Loaded: "@ + old(self).current_url@
                    &&& final(self).current_url == old(self).current_url
                    &&& final(self).history == old(self).history
                    &&& final(self).future == old(self).future
                    &&& final(self).mode == old(self).mode
                    &&& final(self).command_buffer == old(self).command_buffer
                    &&& final(self).image_preview == old(self).image_preview
                },
                Err(e) => {
                    &&& e is Parse
                    &&& rich_runs_of(markup@, width as int) is None
                    &&& *final(self) == *old(self)
                },
            },
    {
        let base = self.current_url.clone();
        match convert_markup(markup, base.as_str(), width) {
            Ok(p) => {
                let (lines, links) = p;
                self.content_lines = lines;
                self.links = links;
                self.selected_link_idx = 0;
                self.scroll = 0;
                let mut st = String::from_str("Loaded: ");
                st.append(self.current_url.as_str());
                self.status = st;
                Ok(())
            },
            Err(e) => Err(e),
        }
    }

    /// Converts fetched image bytes and opens the preview slot; on
    /// failure the slot — like everything else — is left exactly as it
    /// was.
    pub fn preview_image(&mut self, bytes: &[u8], target_width: usize) -> (r: Result<
        (),
        EngineError,
    >)
        requires
            old(self).wf(),
            1 <= target_width <= 0xFFFF,
        ensures
            final(self).wf(),
            match r {
                Ok(()) => {
                    &&& final(self).image_preview matches Some(g)
                        && meta_rows(bytes@, target_width as int, g@.len() as int) && (forall|
                        y: int,
                    |
                        0 <= y < g@.len() ==> #[trigger] g@[y]@.len() == target_width) && (exists|
                        pix: Seq<u8>,
                    | grid_quantizes(pix, g@, target_width as int))
                    &&& final(self).status@ == "Image preview ready"@
                    &&& *final(self) == (App {
                        image_preview: final(self).image_preview,
                        status: final(self).status,
                        ..*old(self)
                    })
                },
                Err(e) => e is Decode && meta_rejected(bytes@) && *final(self) == *old(self),
            },
    {
        match image_to_text(bytes, target_width) {
            Ok(g) => {
                self.image_preview = Some(g);
                self.status = String::from_str("Image preview ready");
                Ok(())
            },
            Err(e) => Err(e),
        }
    }

    /// Closes the image preview; the slot is the only thing that changes.
    pub fn close_preview(&mut self)
        ensures
            final(self).image_preview is None,
            *final(self) == (App { image_preview: None, ..*old(self) }),
            old(self).wf() ==> final(self).wf(),
    {
        self.image_preview = None;
    }

    /// The link the selection rests on, if any.
    pub fn selected_link(&self) -> (r: Option<&LinkData>)
        requires
            self.wf(),
        ensures
            match r {
                Some(l) => self.links@.len() > 0 && *l == self.links@[
                    self.selected_link_idx as int
                ],
                None => self.links@.len() == 0,
            },
    {
        if self.links.len() > 0 {
            Some(&self.links[self.selected_link_idx])
        } else {
            None
        }
    }

    /// The render-ready view of the content: the overlay replaces the
    /// style of the run whose link index equals the selection, and
    /// nothing else.
    pub fn render_content(&self) -> (r: Vec<StyledLine>)
        requires
            self.wf(),
        ensures
            r@.len() == self.content_lines@.len(),
            forall|l: int|
                0 <= l < self.content_lines@.len() ==> #[trigger] r@[l]@.len()
                    == self.content_lines@[l]@.len(),
            forall|l: int, j: int|
                0 <= l < self.content_lines@.len() && 0 <= j < self.content_lines@[l]@.len()
                    ==> {
                    let o = self.content_lines@[l]@[j];
                    let n = #[trigger] r@[l]@[j];
                    n.text == o.text && n.role == o.role && n.style == (
                    if is_tagged(o) && tagged_before(
                        lines_view(self.content_lines@),
                        l,
                        j,
                    ) == self.selected_link_idx {
                        highlight_of(o.style)
                    } else {
                        o.style
                    })
                },
    {
        let n = self.links.len();
        proof {
            assert(self.links@.len() == n);
            assert(count_tagged(lines_view(self.content_lines@)) <= usize::MAX);
        }
        render_highlight(&self.content_lines, self.selected_link_idx)
    }
}

/// Relies on std's String::push: appends one character.
#[verifier::external_body]
fn push_char(s: &mut String, c: char)
    ensures
        final(s)@ == old(s)@.push(c),
{
    s.push(c);
}

/// Relies on std's String::pop: removes the last character, if any.
#[verifier::external_body]
fn pop_char(s: &mut String)
    ensures
        final(s)@ == (if old(s)@.len() > 0 {
            old(s)@.drop_last()
        } else {
            old(s)@
        }),
{
    s.pop();
}

} // verus!
