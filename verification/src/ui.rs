//! What the dashboard shows, as text with a tone: the cells of a table row,
//! the title, the filter tabs and the status bar. Laying the text out on a
//! terminal is left to the program around the library.

use crate::app::{App, FilterMode};
use crate::git_repo::{loading_label, GitRepo, RepoView};
use crate::model::AppView;
use crate::number::{append_decimal, decimal_nat};
use crate::text::{has_char, push_char, same_text};
use vstd::prelude::*;
use vstd::string::StringExecFns;

verus! {

/// The colour of a piece of text, by its role.
#[derive(Debug, Clone, Copy, PartialEq, Eq, Structural)]
pub enum Tone {
    /// The colour of the terminal.
    Plain,
    White,
    DarkGray,
    Red,
    Green,
    Yellow,
    Cyan,
    LightBlue,
}

/// A piece of text to show.
#[derive(Debug, Clone, PartialEq, Eq)]
pub struct Span {
    pub text: String,
    pub tone: Tone,
    pub bold: bool,
}

/// What a span holds.
pub struct SpanView {
    pub text: Seq<char>,
    pub tone: Tone,
    pub bold: bool,
}

impl View for Span {
    type V = SpanView;

    open spec fn view(&self) -> SpanView {
        SpanView { text: self.text@, tone: self.tone, bold: self.bold }
    }
}

impl DeepView for Span {
    type V = SpanView;

    open spec fn deep_view(&self) -> SpanView {
        self@
    }
}

/// A span that is not bold.
pub open spec fn plain_span(text: Seq<char>, tone: Tone) -> SpanView {
    SpanView { text, tone, bold: false }
}

/// The mark before a label that is not loaded yet: a clockwise arrow and a
/// blank.
pub open spec fn loading_mark() -> Seq<char> {
    seq!['\u{27f3}', ' ']
}

/// The remote status as shown: text and tone.
pub open spec fn remote_cell_of(label: Seq<char>) -> SpanView {
    if label == loading_label() {
        plain_span(loading_mark() + label, Tone::DarkGray)
    } else if label == "local-only"@ {
        plain_span(label, Tone::Red)
    } else if label == "up-to-date"@ {
        plain_span(label, Tone::Green)
    } else if label == "no-tracking"@ {
        plain_span(label, Tone::Yellow)
    } else if label.contains('\u{2191}') || label.contains('\u{2193}') {
        plain_span(label, Tone::Cyan)
    } else {
        plain_span(label, Tone::White)
    }
}

/// The working-tree status as shown: text and tone.
pub open spec fn status_cell_of(label: Seq<char>) -> SpanView {
    if label == loading_label() {
        plain_span(loading_mark() + label, Tone::DarkGray)
    } else if label == "clean"@ {
        plain_span(label, Tone::Green)
    } else if label == "unknown"@ {
        plain_span(label, Tone::DarkGray)
    } else {
        plain_span(label, Tone::Yellow)
    }
}

/// The four cells of the table row of a record: name, branch, remote status
/// and working-tree status. A missing record is shown in gray, with `missing`
/// for its remote status and nothing else.
pub open spec fn row_of(r: RepoView) -> Seq<SpanView> {
    if r.missing {
        seq![
            plain_span(r.display_short(), Tone::DarkGray),
            plain_span(Seq::empty(), Tone::DarkGray),
            plain_span("missing"@, Tone::DarkGray),
            plain_span(Seq::empty(), Tone::DarkGray),
        ]
    } else {
        seq![
            plain_span(r.display_short(), Tone::Plain),
            plain_span(r.branch, Tone::Plain),
            remote_cell_of(r.remote_status_label()),
            status_cell_of(r.status_label()),
        ]
    }
}

/// The title of the table.
pub open spec fn title_of(scan_path: Seq<char>) -> SpanView {
    SpanView { text: "Git Repositories - "@ + scan_path, tone: Tone::LightBlue, bold: true }
}

/// The tab of the filter `tab` while the filter `mode` is in force.
pub open spec fn tab_of(tab: FilterMode, mode: FilterMode) -> SpanView {
    if tab == mode {
        SpanView { text: tab.spec_display_name(), tone: Tone::LightBlue, bold: true }
    } else {
        plain_span(tab.spec_display_name(), Tone::White)
    }
}

/// The tabs of the four filters, in the order of the cycle, with a dash
/// between them.
pub open spec fn tabs_of(mode: FilterMode) -> Seq<SpanView> {
    seq![
        tab_of(FilterMode::All, mode),
        plain_span(" - "@, Tone::Plain),
        tab_of(FilterMode::NeedsAttention, mode),
        plain_span(" - "@, Tone::Plain),
        tab_of(FilterMode::Behind, mode),
        plain_span(" - "@, Tone::Plain),
        tab_of(FilterMode::Modified, mode),
    ]
}

/// How many records are shown, in words.
pub open spec fn count_text_of(shown: nat, total: nat) -> Seq<char> {
    if shown == total {
        if total == 1 {
            "Found 1 repository"@
        } else {
            "Found "@ + decimal_nat(total) + " repositories"@
        }
    } else {
        "Showing "@ + decimal_nat(shown) + " of "@ + decimal_nat(total) + " repositories"@
    }
}

/// The frames of the progress animation.
pub open spec fn spinner_of(frame: nat) -> char {
    let f = frame % 10;
    if f == 0 {
        '\u{280b}'
    } else if f == 1 {
        '\u{2819}'
    } else if f == 2 {
        '\u{2839}'
    } else if f == 3 {
        '\u{2838}'
    } else if f == 4 {
        '\u{283c}'
    } else if f == 5 {
        '\u{2834}'
    } else if f == 6 {
        '\u{2826}'
    } else if f == 7 {
        '\u{2827}'
    } else if f == 8 {
        '\u{2807}'
    } else {
        '\u{280f}'
    }
}

/// The progress of one kind of operation: the spinner, the verb and how
/// many records it runs on.
pub open spec fn progress_part_of(frame: nat, verb: Seq<char>, count: nat) -> Seq<char> {
    if count == 1 {
        seq![spinner_of(frame), ' '] + verb + " 1 repo"@
    } else {
        seq![spinner_of(frame), ' '] + verb + seq![' '] + decimal_nat(count) + " repos"@
    }
}

/// The progress of the fetches and clones in flight.
pub open spec fn progress_of(frame: nat, fetching: nat, cloning: nat) -> Seq<char> {
    if fetching > 0 && cloning > 0 {
        progress_part_of(frame, "Fetching"@, fetching) + ", "@ + progress_part_of(
            frame,
            "Cloning"@,
            cloning,
        )
    } else if fetching > 0 {
        progress_part_of(frame, "Fetching"@, fetching)
    } else if cloning > 0 {
        progress_part_of(frame, "Cloning"@, cloning)
    } else {
        Seq::empty()
    }
}

/// The keys, as the status bar lists them while a search text is in force.
pub open spec fn keys_hint() -> Seq<char> {
    " | Navigate: \u{2191}/\u{2193} or j/k | Mode: [/] | Clone: c | Drop: d | Quit: q or Ctrl-C"@
}

/// The keys, as the status bar lists them otherwise.
pub open spec fn keys_hint_with_search() -> Seq<char> {
    " | Navigate: \u{2191}/\u{2193} or j/k | Mode: [/] | Search: / | Clone: c | Drop: d | Quit: q or Ctrl-C"@
}

/// The status bar. While the search text is edited it shows the prompt
/// only; else the search text in force, the count of records, the progress
/// of fetches and clones, and the keys.
pub open spec fn status_bar_of(v: AppView) -> Seq<SpanView> {
    let count = plain_span(count_text_of(v.visible().len(), v.repos.len()), Tone::Cyan);
    let progress = plain_span(
        progress_of(v.frame as nat, v.fetching.len(), v.cloning.len()),
        Tone::Yellow,
    );
    let busy = v.fetching.len() > 0 || v.cloning.len() > 0;
    let bar = plain_span(" | "@, Tone::Plain);
    if v.search_mode {
        seq![plain_span("Search: "@, Tone::Yellow), plain_span(v.search_query, Tone::White)]
    } else if v.search_query.len() > 0 {
        let search = plain_span(
            "Search: "@ + v.search_query + " (press / to edit)"@,
            Tone::Yellow,
        );
        if busy {
            seq![search, bar, count, bar, progress, plain_span(keys_hint(), Tone::DarkGray)]
        } else {
            seq![search, bar, count, plain_span(keys_hint(), Tone::DarkGray)]
        }
    } else if busy {
        seq![count, bar, progress, plain_span(keys_hint_with_search(), Tone::DarkGray)]
    } else {
        seq![count, plain_span(keys_hint_with_search(), Tone::DarkGray)]
    }
}

/// A span that is not bold.
fn span(text: String, tone: Tone) -> (r: Span)
    ensures
        r@ == plain_span(text@, tone),
{
    Span { text, tone, bold: false }
}

/// The label with the mark of a status that is not loaded yet before it.
fn marked(label: &str) -> (r: String)
    ensures
        r@ == loading_mark() + label@,
{
    let mut s = String::new();
    push_char(&mut s, '\u{27f3}');
    push_char(&mut s, ' ');
    s.append(label);
    assert(s@ =~= loading_mark() + label@);
    s
}

/// The remote status as shown.
pub fn remote_cell(label: &str) -> (r: Span)
    ensures
        r@ == remote_cell_of(label@),
{
    if same_text(label, "loading...") {
        span(marked(label), Tone::DarkGray)
    } else if same_text(label, "local-only") {
        span(String::from_str(label), Tone::Red)
    } else if same_text(label, "up-to-date") {
        span(String::from_str(label), Tone::Green)
    } else if same_text(label, "no-tracking") {
        span(String::from_str(label), Tone::Yellow)
    } else if has_char(label, '\u{2191}') || has_char(label, '\u{2193}') {
        span(String::from_str(label), Tone::Cyan)
    } else {
        span(String::from_str(label), Tone::White)
    }
}

/// The working-tree status as shown.
pub fn status_cell(label: &str) -> (r: Span)
    ensures
        r@ == status_cell_of(label@),
{
    if same_text(label, "loading...") {
        span(marked(label), Tone::DarkGray)
    } else if same_text(label, "clean") {
        span(String::from_str(label), Tone::Green)
    } else if same_text(label, "unknown") {
        span(String::from_str(label), Tone::DarkGray)
    } else {
        span(String::from_str(label), Tone::Yellow)
    }
}

/// The four cells of the table row of a record.
pub fn row(repo: &GitRepo) -> (r: Vec<Span>)
    ensures
        r.deep_view() == row_of(repo@),
{
    let mut cells: Vec<Span> = Vec::new();
    if repo.is_missing() {
        cells.push(span(repo.display_short(), Tone::DarkGray));
        cells.push(span(String::new(), Tone::DarkGray));
        cells.push(span(String::from_str("missing"), Tone::DarkGray));
        cells.push(span(String::new(), Tone::DarkGray));
    } else {
        cells.push(span(repo.display_short(), Tone::Plain));
        cells.push(span(String::from_str(repo.branch()), Tone::Plain));
        cells.push(remote_cell(repo.remote_status()));
        cells.push(status_cell(repo.status()));
    }
    assert(cells.deep_view() =~= row_of(repo@));
    cells
}

/// The title of the table.
pub fn title(scan_path: &str) -> (r: Span)
    ensures
        r@ == title_of(scan_path@),
{
    let mut text = String::from_str("Git Repositories - ");
    text.append(scan_path);
    Span { text, tone: Tone::LightBlue, bold: true }
}

/// The tab of the filter `of` while the filter `mode` is in force.
fn tab(of: FilterMode, mode: FilterMode) -> (r: Span)
    ensures
        r@ == tab_of(of, mode),
{
    let text = String::from_str(of.display_name());
    if of == mode {
        Span { text, tone: Tone::LightBlue, bold: true }
    } else {
        span(text, Tone::White)
    }
}

/// The tabs of the four filters.
pub fn filter_tabs(mode: FilterMode) -> (r: Vec<Span>)
    ensures
        r.deep_view() == tabs_of(mode),
{
    let mut tabs: Vec<Span> = Vec::new();
    tabs.push(tab(FilterMode::All, mode));
    tabs.push(span(String::from_str(" - "), Tone::Plain));
    tabs.push(tab(FilterMode::NeedsAttention, mode));
    tabs.push(span(String::from_str(" - "), Tone::Plain));
    tabs.push(tab(FilterMode::Behind, mode));
    tabs.push(span(String::from_str(" - "), Tone::Plain));
    tabs.push(tab(FilterMode::Modified, mode));
    assert(tabs.deep_view() =~= tabs_of(mode));
    tabs
}

/// How many records are shown, in words.
pub fn count_text(shown: usize, total: usize) -> (r: String)
    ensures
        r@ == count_text_of(shown as nat, total as nat),
{
    if shown == total {
        if total == 1 {
            String::from_str("Found 1 repository")
        } else {
            let mut s = String::from_str("Found ");
            append_decimal(&mut s, total as u64);
            s.append(" repositories");
            s
        }
    } else {
        let mut s = String::from_str("Showing ");
        append_decimal(&mut s, shown as u64);
        s.append(" of ");
        append_decimal(&mut s, total as u64);
        s.append(" repositories");
        s
    }
}

/// The frame of the progress animation.
pub fn spinner(frame: usize) -> (r: char)
    ensures
        r == spinner_of(frame as nat),
{
    let f = frame % 10;
    if f == 0 {
        '\u{280b}'
    } else if f == 1 {
        '\u{2819}'
    } else if f == 2 {
        '\u{2839}'
    } else if f == 3 {
        '\u{2838}'
    } else if f == 4 {
        '\u{283c}'
    } else if f == 5 {
        '\u{2834}'
    } else if f == 6 {
        '\u{2826}'
    } else if f == 7 {
        '\u{2827}'
    } else if f == 8 {
        '\u{2807}'
    } else {
        '\u{280f}'
    }
}

/// Appends the progress of one kind of operation.
fn append_progress_part(s: &mut String, frame: usize, verb: &str, count: usize)
    ensures
        final(s)@ == old(s)@ + progress_part_of(frame as nat, verb@, count as nat),
{
    push_char(s, spinner(frame));
    push_char(s, ' ');
    s.append(verb);
    if count == 1 {
        s.append(" 1 repo");
    } else {
        push_char(s, ' ');
        append_decimal(s, count as u64);
        s.append(" repos");
    }
    assert(s@ =~= old(s)@ + progress_part_of(frame as nat, verb@, count as nat));
}

/// The progress of the fetches and clones in flight.
pub fn progress_text(frame: usize, fetching: usize, cloning: usize) -> (r: String)
    ensures
        r@ == progress_of(frame as nat, fetching as nat, cloning as nat),
{
    let mut s = String::new();
    if fetching > 0 {
        append_progress_part(&mut s, frame, "Fetching", fetching);
    }
    if fetching > 0 && cloning > 0 {
        s.append(", ");
    }
    if cloning > 0 {
        append_progress_part(&mut s, frame, "Cloning", cloning);
    }
    assert(s@ =~= progress_of(frame as nat, fetching as nat, cloning as nat));
    s
}

/// The status bar.
pub fn status_bar(app: &App) -> (r: Vec<Span>)
    ensures
        r.deep_view() == status_bar_of(app@),
{
    let mut spans: Vec<Span> = Vec::new();
    if app.is_search_mode() {
        spans.push(span(String::from_str("Search: "), Tone::Yellow));
        spans.push(span(String::from_str(app.search_query()), Tone::White));
        assert(spans.deep_view() =~= status_bar_of(app@));
        return spans;
    }
    let shown = app.filtered_repos().len();
    let total = app.repos().len();
    let fetching = app.fetching_repos().len();
    let cloning = app.cloning_repos().len();
    let busy = fetching > 0 || cloning > 0;
    let searching = !app.search_query().is_empty();
    if searching {
        let mut search = String::from_str("Search: ");
        search.append(app.search_query());
        search.append(" (press / to edit)");
        spans.push(span(search, Tone::Yellow));
        spans.push(span(String::from_str(" | "), Tone::Plain));
    }
    spans.push(span(count_text(shown, total), Tone::Cyan));
    if busy {
        spans.push(span(String::from_str(" | "), Tone::Plain));
        spans.push(
            span(progress_text(app.fetch_animation_frame(), fetching, cloning), Tone::Yellow),
        );
    }
    if searching {
        spans.push(
            span(
                String::from_str(
                    " | Navigate: \u{2191}/\u{2193} or j/k | Mode: [/] | Clone: c | Drop: d | Quit: q or Ctrl-C",
                ),
                Tone::DarkGray,
            ),
        );
    } else {
        spans.push(
            span(
                String::from_str(
                    " | Navigate: \u{2191}/\u{2193} or j/k | Mode: [/] | Search: / | Clone: c | Drop: d | Quit: q or Ctrl-C",
                ),
                Tone::DarkGray,
            ),
        );
    }
    assert(spans.deep_view() =~= status_bar_of(app@));
    spans
}

} // verus!
