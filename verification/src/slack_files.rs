//! Files in Slack: those that come with a message, and those that a reply names.
use crate::config::{
    normalize_workspace_binding_in, normalized_binding, AgentConfig, AgentView, AppConfig,
    ConfigView,
};
use crate::json::{json_list, Json, JsonView};
use crate::number::{decimal, decimal_text};
use crate::outside::home_dir;
use crate::paths::{
    join_path, joined_path, resolve_path_in, resolved, FilePath, FilePathView,
};
use crate::slack::SlackRuntime;
use crate::state::first_items;
use crate::text::{
    as_opt_str, chars_of, contains, contains_text, copy_text, distinct, find, find_first_places,
    find_text, first_places, has_prefix, holds_text, join, joined, law_first_places, matches_at,
    opt_str, opt_text, present, push_distinct, same_text, starts_with, text_from, text_to, texts,
    trim, trim_end_matches, trim_end_of, trim_matches, trim_present, trim_set, trimmed, words,
    words_of, CharSet,
};
use vstd::prelude::*;

verus! {

pub const MAX_SLACK_ATTACHMENTS: usize = 5;

/// The largest file that is taken or sent, in bytes.
pub const MAX_SLACK_ATTACHMENT_BYTES: u64 = 20_971_520;

pub const MAX_SLACK_OUTPUT_UPLOADS: usize = 3;

// Attachments.
/// A file that comes with a message.
#[derive(Debug)]
pub struct SlackAttachment {
    pub name: String,
    pub download_url: String,
    pub size_bytes: Option<u64>,
}

#[verifier::ext_equal]
pub struct AttachmentView {
    pub name: Seq<char>,
    pub download_url: Seq<char>,
    pub size_bytes: Option<u64>,
}

impl View for SlackAttachment {
    type V = AttachmentView;

    open spec fn view(&self) -> AttachmentView {
        AttachmentView {
            name: self.name@,
            download_url: self.download_url@,
            size_bytes: self.size_bytes,
        }
    }
}

pub open spec fn attachment_views(v: Seq<SlackAttachment>) -> Seq<AttachmentView> {
    Seq::new(v.len(), |i: int| v[i]@)
}

/// Where a file can be had, or nothing.
pub open spec fn file_url(item: JsonView) -> Seq<char> {
    trimmed(
        match item.text_at("url_private_download"@) {
            Some(url) => url,
            None => match item.text_at("url_private"@) {
                Some(url) => url,
                None => seq![],
            },
        },
    )
}

/// What tells a file from another: its id, or else where it can be had.
pub open spec fn file_key(item: JsonView) -> Seq<char> {
    match item.text_at("id"@) {
        Some(id) => id,
        None => file_url(item),
    }
}

/// A file as an attachment.
pub open spec fn file_attachment(item: JsonView) -> AttachmentView {
    AttachmentView {
        name: match present(item.text_at("name"@)) {
            Some(name) => name,
            None => "attachment.bin"@,
        },
        download_url: file_url(item),
        size_bytes: item.unsigned_at("size"@),
    }
}

/// The keys of the files that can be had.
pub open spec fn file_keys(files: Seq<JsonView>) -> Seq<Seq<char>>
    decreases files.len(),
{
    if files.len() == 0 {
        seq![]
    } else if file_url(files.last()).len() == 0 {
        file_keys(files.drop_last())
    } else {
        file_keys(files.drop_last()).push(file_key(files.last()))
    }
}

/// The files that can be had, each once: the first of those with the same key.
pub open spec fn attachments_of(files: Seq<JsonView>) -> Seq<AttachmentView>
    decreases files.len(),
{
    if files.len() == 0 {
        seq![]
    } else {
        let before = attachments_of(files.drop_last());
        if file_url(files.last()).len() == 0 || file_keys(files.drop_last()).contains(
            file_key(files.last()),
        ) {
            before
        } else {
            before.push(file_attachment(files.last()))
        }
    }
}

/// The files that come with an event.
pub open spec fn event_attachments(event: JsonView) -> Seq<AttachmentView> {
    match event.list_at("files"@) {
        Some(files) => attachments_of(files),
        None => seq![],
    }
}

fn read_file_url(item: &Json) -> (r: String)
    ensures
        r@ == file_url(item@),
{
    let empty = String::new();
    assert(empty@ =~= seq![]);
    let url: &str = match item.text_at("url_private_download") {
        Some(url) => url,
        None => match item.text_at("url_private") {
            Some(url) => url,
            None => empty.as_str(),
        },
    };
    copy_text(trim(url))
}

/// The files that come with an event.
pub fn extract_slack_attachments(event: &Json) -> (r: Vec<SlackAttachment>)
    ensures
        attachment_views(r@) == event_attachments(event@),
{
    let mut output: Vec<SlackAttachment> = Vec::new();
    let files = match event.list_at("files") {
        Some(files) => files,
        None => {
            assert(attachment_views(output@) =~= seq![]);
            return output;
        },
    };
    let ghost all = json_list(files@);
    let mut seen: Vec<String> = Vec::new();
    let mut i: usize = 0;
    assert(texts(seen@) =~= file_keys(all.take(0)));
    assert(attachment_views(output@) =~= attachments_of(all.take(0)));
    while i < files.len()
        invariant
            i <= files@.len(),
            all == json_list(files@),
            attachment_views(output@) == attachments_of(all.take(i as int)),
            texts(seen@) == file_keys(all.take(i as int)),
        decreases files@.len() - i,
    {
        let ghost before = (output@, seen@);
        let item = &files[i];
        assert(all.take(i + 1).drop_last() == all.take(i as int));
        assert(all.take(i + 1).last() == item@);
        let url = read_file_url(item);
        if !url.as_str().is_empty() {
            let key = match item.text_at("id") {
                Some(id) => copy_text(id),
                None => url.clone(),
            };
            if !holds_text(&seen, key.as_str()) {
                let name = match trim_present(item.text_at("name")) {
                    Some(name) => copy_text(name),
                    None => copy_text("attachment.bin"),
                };
                let attachment = SlackAttachment {
                    name,
                    download_url: url,
                    size_bytes: item.unsigned_at("size"),
                };
                let ghost added = attachment@;
                output.push(attachment);
                assert(attachment_views(output@) =~= attachment_views(before.0).push(added));
            }
            let ghost key_text = key@;
            seen.push(key);
            assert(texts(seen@) =~= texts(before.1).push(key_text));
        }
        i += 1;
    }
    assert(all.take(all.len() as int) == all);
    output
}

// Workspaces.
/// Where an agent works.
pub open spec fn agent_workspace(
    agent: AgentView,
    brain_workspace: Seq<char>,
    home: Option<Seq<char>>,
) -> FilePathView {
    let workspace = match agent.workspace {
        Some(w) => w,
        None => brain_workspace,
    };
    resolved(normalized_binding(workspace, brain_workspace, home), home is Some)
}

/// The views of paths.
pub open spec fn path_views(list: Seq<FilePath>) -> Seq<FilePathView> {
    Seq::new(list.len(), |i: int| list[i]@)
}

/// The paths of `all` that are not shown like an earlier one.
pub open spec fn shown_once(all: Seq<FilePathView>, home: Option<Seq<char>>) -> Seq<FilePathView> {
    let places = first_places(Seq::new(all.len(), |i: int| all[i].shown(home)));
    Seq::new(places.len(), |k: int| all[places[k]])
}

/// Where the agents work, each place once; where the brain works if there are no
/// agents.
pub open spec fn agent_workspaces(cfg: ConfigView, home: Option<Seq<char>>) -> Seq<FilePathView> {
    if cfg.agents.len() == 0 {
        seq![
            resolved(
                normalized_binding(cfg.brain.workspace, cfg.brain.workspace, home),
                home is Some,
            ),
        ]
    } else {
        shown_once(
            Seq::new(
                cfg.agents.len(),
                |i: int| agent_workspace(cfg.agents[i], cfg.brain.workspace, home),
            ),
            home,
        )
    }
}

fn read_agent_workspace(agent: &AgentConfig, brain_workspace: &str, home: Option<&str>) -> (r:
    FilePath)
    ensures
        r@ == agent_workspace(agent@, brain_workspace@, opt_str(home)),
{
    let bound = match &agent.workspace {
        Some(w) => normalize_workspace_binding_in(w.as_str(), brain_workspace, home),
        None => normalize_workspace_binding_in(brain_workspace, brain_workspace, home),
    };
    resolve_path_in(bound.as_str(), home.is_some())
}

fn keep_shown_once(all: &Vec<FilePath>, home: Option<&str>) -> (r: Vec<FilePath>)
    ensures
        path_views(r@) == shown_once(path_views(all@), opt_str(home)),
{
    let ghost views = path_views(all@);
    let ghost place = opt_str(home);
    let ghost keys = Seq::new(views.len(), |i: int| views[i].shown(place));
    let mut shown: Vec<String> = Vec::new();
    let mut i: usize = 0;
    assert(texts(shown@) =~= keys.take(0));
    while i < all.len()
        invariant
            i <= all@.len(),
            views == path_views(all@),
            place == opt_str(home),
            keys == Seq::new(views.len(), |i: int| views[i].shown(place)),
            texts(shown@) == keys.take(i as int),
        decreases all@.len() - i,
    {
        let ghost before = shown@;
        shown.push(all[i].shown_in(home));
        assert(views[i as int] == all@[i as int]@);
        assert(texts(shown@) =~= texts(before).push(keys[i as int]));
        assert(keys.take(i + 1) =~= keys.take(i as int).push(keys[i as int]));
        i += 1;
    }
    assert(keys.take(keys.len() as int) =~= keys);
    let places = find_first_places(&shown);
    let ghost first = first_places(keys);
    let ghost kept = shown_once(views, place);
    proof {
        law_first_places(keys);
    }
    let mut output: Vec<FilePath> = Vec::new();
    let mut k: usize = 0;
    assert(path_views(output@) =~= kept.take(0));
    while k < places.len()
        invariant
            k <= places@.len(),
            views == path_views(all@),
            keys.len() == views.len(),
            first == Seq::new(places@.len(), |k: int| places@[k] as int),
            forall|k: int| 0 <= k < first.len() ==> 0 <= #[trigger] first[k] < keys.len(),
            kept == Seq::new(first.len(), |k: int| views[first[k]]),
            path_views(output@) == kept.take(k as int),
        decreases places@.len() - k,
    {
        let ghost before = output@;
        assert(first[k as int] == places@[k as int]);
        output.push(all[places[k]].clone());
        assert(kept[k as int] == views[first[k as int]]);
        assert(path_views(output@) =~= path_views(before).push(kept[k as int]));
        assert(kept.take(k + 1) =~= kept.take(k as int).push(kept[k as int]));
        k += 1;
    }
    assert(kept.take(kept.len() as int) =~= kept);
    output
}

/// Where the agents work, under the home directory `home`.
pub fn collect_agent_workspaces_in(cfg: &AppConfig, home: Option<&str>) -> (r: Vec<FilePath>)
    ensures
        path_views(r@) == agent_workspaces(cfg@, opt_str(home)),
{
    let brain: &str = cfg.brain.workspace.as_str();
    let mut output: Vec<FilePath> = Vec::new();
    if cfg.agents.len() == 0 {
        let bound = normalize_workspace_binding_in(brain, brain, home);
        output.push(resolve_path_in(bound.as_str(), home.is_some()));
        assert(path_views(output@) =~= agent_workspaces(cfg@, opt_str(home)));
        return output;
    }
    let ghost view = cfg@;
    let ghost place = opt_str(home);
    let ghost all = Seq::new(
        view.agents.len(),
        |i: int| agent_workspace(view.agents[i], view.brain.workspace, place),
    );
    let mut i: usize = 0;
    assert(path_views(output@) =~= all.take(0));
    while i < cfg.agents.len()
        invariant
            i <= cfg.agents@.len(),
            view == cfg@,
            place == opt_str(home),
            brain@ == view.brain.workspace,
            all == Seq::new(
                view.agents.len(),
                |i: int| agent_workspace(view.agents[i], view.brain.workspace, place),
            ),
            path_views(output@) == all.take(i as int),
        decreases cfg.agents@.len() - i,
    {
        let ghost before = output@;
        assert(view.agents[i as int] == cfg.agents@[i as int]@);
        output.push(read_agent_workspace(&cfg.agents[i], brain, home));
        assert(path_views(output@) =~= path_views(before).push(all[i as int]));
        assert(all.take(i + 1) =~= all.take(i as int).push(all[i as int]));
        i += 1;
    }
    assert(all.take(all.len() as int) =~= all);
    keep_shown_once(&output, home)
}

/// Where the agents work.
pub fn collect_agent_workspaces(cfg: &AppConfig) -> (r: Vec<FilePath>)
    ensures
        exists|home: Option<Seq<char>>| path_views(r@) == #[trigger] agent_workspaces(cfg@, home),
{
    let home = home_dir();
    collect_agent_workspaces_in(cfg, as_opt_str(&home))
}

// Names of files.
/// Whether `c` may stand in the name of a file.
pub open spec fn is_file_char(c: char) -> bool {
    'a' <= c <= 'z' || 'A' <= c <= 'Z' || '0' <= c <= '9' || c == '.' || c == '-' || c == '_'
}

/// `c`, or a hyphen where it may not stand in the name of a file.
pub open spec fn file_char(c: char) -> char {
    if is_file_char(c) {
        c
    } else {
        '-'
    }
}

/// A text as a part of a path: with hyphens for what may not stand there, and
/// without dots and then hyphens around it. The fallback stands where nothing is
/// left, or only what names this directory or the one above.
pub open spec fn path_component(value: Seq<char>, fallback: Seq<char>) -> Seq<char> {
    let t = trim_set(
        trim_set(Seq::new(value.len(), |i: int| file_char(value[i])), CharSet::OneOf(".")),
        CharSet::OneOf("-"),
    );
    if t.len() == 0 || t == "."@ || t == ".."@ {
        fallback
    } else {
        t
    }
}

/// A text as a part of a path.
pub fn sanitize_path_component(value: &str, fallback: &str) -> (r: String)
    ensures
        r@ == path_component(value@, fallback@),
{
    let chars = chars_of(value);
    let ghost mapped = Seq::new(value@.len(), |i: int| file_char(value@[i]));
    let mut output = String::new();
    let mut i: usize = 0;
    while i < chars.len()
        invariant
            i <= chars@.len(),
            chars@ == value@,
            mapped == Seq::new(value@.len(), |i: int| file_char(value@[i])),
            output@ == mapped.take(i as int),
        decreases chars@.len() - i,
    {
        let c = chars[i];
        let good = ('a' <= c && c <= 'z') || ('A' <= c && c <= 'Z') || ('0' <= c && c <= '9') || c
            == '.' || c == '-' || c == '_';
        output.push(
            if good {
                c
            } else {
                '-'
            },
        );
        assert(mapped.take(i + 1) == mapped.take(i as int).push(mapped[i as int]));
        i += 1;
    }
    assert(mapped.take(mapped.len() as int) == mapped);
    let t = trim_matches(
        trim_matches(output.as_str(), &CharSet::OneOf(".")),
        &CharSet::OneOf("-"),
    );
    if t.is_empty() || same_text(t, ".") || same_text(t, "..") {
        copy_text(fallback)
    } else {
        copy_text(t)
    }
}

/// The most characters of a file's name that are kept.
pub const MAX_FILE_NAME_CHARS: usize = 96;

/// A text as the name of a file.
pub open spec fn file_name(value: Seq<char>) -> Seq<char> {
    let t = trimmed(
        first_items(path_component(value, "attachment.bin"@), MAX_FILE_NAME_CHARS as nat),
    );
    if t.len() == 0 {
        "attachment.bin"@
    } else {
        t
    }
}

/// A text as the name of a file.
pub fn sanitize_file_name(value: &str) -> (r: String)
    ensures
        r@ == file_name(value@),
{
    let component = sanitize_path_component(value, "attachment.bin");
    let whole: &str = component.as_str();
    let first: &str = if whole.unicode_len() > MAX_FILE_NAME_CHARS {
        text_to(whole, MAX_FILE_NAME_CHARS)
    } else {
        whole
    };
    let t = trim(first);
    if t.is_empty() {
        copy_text("attachment.bin")
    } else {
        copy_text(t)
    }
}

// Saving attachments.
/// A number with at least two digits.
pub open spec fn two_digits(n: nat) -> Seq<char> {
    if n < 10 {
        "0"@ + decimal(n)
    } else {
        decimal(n)
    }
}

/// Where the file numbered `index` of a session is kept in a workspace.
pub open spec fn inbox_path(session: Seq<char>, index: nat, name: Seq<char>) -> Seq<char> {
    ".openorchestrator/inbox/"@ + path_component(session, "slack-session"@) + "/"@ + two_digits(
        index,
    ) + "-"@ + file_name(name)
}

fn render_inbox_path(session: &str, index: u64, name: &str) -> (r: String)
    ensures
        r@ == inbox_path(session@, index as nat, name@),
{
    let mut out = copy_text(".openorchestrator/inbox/");
    out.append(sanitize_path_component(session, "slack-session").as_str());
    out.append("/");
    let ghost start = out@;
    if index < 10 {
        out.append("0");
    }
    out.append(decimal_text(index).as_str());
    assert(out@ =~= start + two_digits(index as nat));
    out.append("-");
    out.append(sanitize_file_name(name).as_str());
    out
}

/// The files of a message that are being saved: how many have been dealt with,
/// what is said of them, and how many are saved.
#[derive(Debug)]
pub struct AttachmentJob {
    pub session: String,
    pub attachments: Vec<SlackAttachment>,
    pub index: usize,
    pub lines: Vec<String>,
    pub saved: usize,
}

#[verifier::ext_equal]
pub struct JobView {
    pub session: Seq<char>,
    pub attachments: Seq<AttachmentView>,
    pub index: nat,
    pub lines: Seq<Seq<char>>,
    pub saved: nat,
}

impl View for AttachmentJob {
    type V = JobView;

    open spec fn view(&self) -> JobView {
        JobView {
            session: self.session@,
            attachments: attachment_views(self.attachments@),
            index: self.index as nat,
            lines: texts(self.lines@),
            saved: self.saved as nat,
        }
    }
}

impl JobView {
    /// Whether no more files are dealt with than there are, no more saved than
    /// dealt with, and something is said of each.
    pub open spec fn well_formed(self) -> bool {
        self.saved <= self.index <= self.attachments.len() && self.attachments.len()
            <= MAX_SLACK_ATTACHMENTS && self.lines.len() == self.index + 1
    }

    /// Whether the next file is known to be too large.
    pub open spec fn skips(self) -> bool {
        self.index < self.attachments.len() && match self.attachments[self.index as int].size_bytes {
            Some(size) => size > MAX_SLACK_ATTACHMENT_BYTES,
            None => false,
        }
    }

    /// The next file.
    pub open spec fn current(self) -> AttachmentView {
        self.attachments[self.index as int]
    }
}

/// A job after the next file was dealt with, and `line` said of it.
pub open spec fn noted(job: JobView, line: Seq<char>, saved: bool) -> JobView {
    JobView {
        index: job.index + 1,
        lines: job.lines.push("- "@ + job.current().name + line),
        saved: if saved {
            job.saved + 1
        } else {
            job.saved
        },
        ..job
    }
}

/// What is said of a file that is too large to be fetched.
pub open spec fn too_large_text() -> Seq<char> {
    " (skipped: file is larger than "@ + decimal(MAX_SLACK_ATTACHMENT_BYTES as nat) + " bytes)"@
}

/// What is said of a file that turned out to be too large.
pub open spec fn exceeded_text() -> Seq<char> {
    " (skipped: downloaded payload exceeded "@ + decimal(MAX_SLACK_ATTACHMENT_BYTES as nat)
        + " bytes)"@
}

/// A job after the files that are known to be too large were passed over.
pub open spec fn advanced(job: JobView) -> JobView
    decreases job.attachments.len() - job.index,
{
    if job.skips() {
        advanced(noted(job, too_large_text(), false))
    } else {
        job
    }
}

/// The job for the files of an event: the first few of them. There is none where
/// there is no token to fetch them with, or no file.
pub open spec fn attachment_job(
    bot_token: Option<Seq<char>>,
    event: JsonView,
    session: Seq<char>,
) -> Option<JobView> {
    let attachments = event_attachments(event);
    if present(bot_token) is None || attachments.len() == 0 {
        None
    } else {
        Some(
            JobView {
                session,
                attachments: first_items(attachments, MAX_SLACK_ATTACHMENTS as nat),
                index: 0,
                lines: seq!["Attached files saved to agent workspaces:"@],
                saved: 0,
            },
        )
    }
}

/// What is said of the files when all have been dealt with; nothing where none
/// was saved.
pub open spec fn attachment_context(job: JobView) -> Option<Seq<char>> {
    if job.saved == 0 {
        None
    } else {
        Some(
            joined(job.lines.push("Use the saved local paths when running scripts."@), "\n"@),
        )
    }
}

/// Where the next file is to be kept in each workspace.
pub open spec fn current_path(job: JobView) -> Seq<char> {
    inbox_path(job.session, job.index + 1, job.current().name)
}

/// The job for the files of an event.
pub fn start_attachment_job(slack: &SlackRuntime, event: &Json, session: &str) -> (r:
    Option<AttachmentJob>)
    ensures
        match r {
            Some(job) => attachment_job(slack@.bot_token, event@, session@) == Some(job@)
                && job@.well_formed(),
            None => attachment_job(slack@.bot_token, event@, session@) is None,
        },
{
    if trim_present(as_opt_str(&slack.bot_token)).is_none() {
        return None;
    }
    let mut attachments = extract_slack_attachments(event);
    assert(attachment_views(attachments@).len() == attachments@.len());
    if attachments.len() == 0 {
        return None;
    }
    let ghost all = attachments@;
    if attachments.len() > MAX_SLACK_ATTACHMENTS {
        attachments.truncate(MAX_SLACK_ATTACHMENTS);
    }
    assert(attachment_views(attachments@) =~= first_items(
        attachment_views(all),
        MAX_SLACK_ATTACHMENTS as nat,
    ));
    let mut lines: Vec<String> = Vec::new();
    lines.push(copy_text("Attached files saved to agent workspaces:"));
    assert(texts(lines@) =~= seq!["Attached files saved to agent workspaces:"@]);
    Some(
        AttachmentJob { session: copy_text(session), attachments, index: 0, lines, saved: 0 },
    )
}

impl AttachmentJob {
    fn note(&mut self, line: &str, saved: bool)
        requires
            old(self)@.well_formed(),
            old(self)@.index < old(self)@.attachments.len(),
        ensures
            final(self)@ == noted(old(self)@, line@, saved),
            final(self)@.well_formed(),
    {
        let ghost before = self@;
        assert(before.current() == self.attachments@[self.index as int]@);
        let mut out = copy_text("- ");
        out.append(self.attachments[self.index].name.as_str());
        out.append(line);
        let ghost said = out@;
        self.lines.push(out);
        assert(texts(self.lines@) =~= before.lines.push(said));
        self.index = self.index + 1;
        if saved {
            self.saved = self.saved + 1;
        }
    }

    /// The next file to fetch, past those that are known to be too large; nothing
    /// where all have been dealt with.
    pub fn next(&mut self) -> (r: Option<String>)
        requires
            old(self)@.well_formed(),
        ensures
            final(self)@ == advanced(old(self)@),
            final(self)@.well_formed(),
            match r {
                Some(url) => final(self)@.index < final(self)@.attachments.len() && url@
                    == final(self)@.current().download_url,
                None => final(self)@.index == final(self)@.attachments.len(),
            },
    {
        let ghost before = self@;
        while self.index < self.attachments.len()
            invariant
                self@.well_formed(),
                before == old(self)@,
                advanced(self@) == advanced(before),
            decreases self.attachments@.len() - self.index,
        {
            assert(self@.current() == self.attachments@[self.index as int]@);
            let too_large = match self.attachments[self.index].size_bytes {
                Some(size) => size > MAX_SLACK_ATTACHMENT_BYTES,
                None => false,
            };
            if !too_large {
                return Some(self.attachments[self.index].download_url.clone());
            }
            let mut line = copy_text(" (skipped: file is larger than ");
            line.append(decimal_text(MAX_SLACK_ATTACHMENT_BYTES).as_str());
            line.append(" bytes)");
            let ghost here = self@;
            assert(here.skips());
            self.note(line.as_str(), false);
            assert(self@ == noted(here, too_large_text(), false));
        }
        None
    }

    /// The next file could not be fetched.
    pub fn download_failed(&mut self, error: &str)
        requires
            old(self)@.well_formed(),
            old(self)@.index < old(self)@.attachments.len(),
        ensures
            final(self)@ == noted(old(self)@, " (download failed: "@ + error@ + ")"@, false),
            final(self)@.well_formed(),
    {
        let mut line = copy_text(" (download failed: ");
        line.append(error);
        line.append(")");
        self.note(line.as_str(), false);
    }

    /// The next file was fetched and has `len` bytes: where it is to be kept in
    /// each workspace, unless it is too large.
    pub fn downloaded(&mut self, len: u64) -> (r: Option<String>)
        requires
            old(self)@.well_formed(),
            old(self)@.index < old(self)@.attachments.len(),
        ensures
            final(self)@.well_formed(),
            match r {
                Some(path) => len <= MAX_SLACK_ATTACHMENT_BYTES && path@ == current_path(old(self)@)
                    && final(self)@ == old(self)@,
                None => len > MAX_SLACK_ATTACHMENT_BYTES && final(self)@ == noted(
                    old(self)@,
                    exceeded_text(),
                    false,
                ),
            },
    {
        if len > MAX_SLACK_ATTACHMENT_BYTES {
            let mut line = copy_text(" (skipped: downloaded payload exceeded ");
            line.append(decimal_text(MAX_SLACK_ATTACHMENT_BYTES).as_str());
            line.append(" bytes)");
            self.note(line.as_str(), false);
            return None;
        }
        assert(self@.current() == self.attachments@[self.index as int]@);
        Some(
            render_inbox_path(
                self.session.as_str(),
                (self.index + 1) as u64,
                self.attachments[self.index].name.as_str(),
            ),
        )
    }

    /// The next file was written to the workspaces, or to none of them.
    pub fn written(&mut self, to_some_workspace: bool)
        requires
            old(self)@.well_formed(),
            old(self)@.index < old(self)@.attachments.len(),
        ensures
            final(self)@ == (if to_some_workspace {
                noted(old(self)@, " -> "@ + current_path(old(self)@), true)
            } else {
                noted(old(self)@, " (save failed for all workspaces)"@, false)
            }),
            final(self)@.well_formed(),
    {
        assert(self@.current() == self.attachments@[self.index as int]@);
        if to_some_workspace {
            let mut line = copy_text(" -> ");
            line.append(
                render_inbox_path(
                    self.session.as_str(),
                    (self.index + 1) as u64,
                    self.attachments[self.index].name.as_str(),
                ).as_str(),
            );
            self.note(line.as_str(), true);
        } else {
            self.note(" (save failed for all workspaces)", false);
        }
    }

    /// What is said of the files when all have been dealt with; nothing where
    /// none was saved.
    pub fn finish(self) -> (r: Option<String>)
        ensures
            opt_text(r) == attachment_context(self@),
    {
        if self.saved == 0 {
            return None;
        }
        let mut lines = self.lines;
        lines.push(copy_text("Use the saved local paths when running scripts."));
        assert(texts(lines@) =~= self@.lines.push(
            "Use the saved local paths when running scripts."@,
        ));
        Some(join(&lines, "\n"))
    }
}

// Output files.
/// A word of a reply as the path of an output file, where it is one: what stands
/// in an outbox, without punctuation around it and what is written before the
/// path.
pub open spec fn output_token(token: Seq<char>) -> Option<Seq<char>> {
    let t = trim_end_of(
        trim_set(token, CharSet::OneOf("`\"',;:()[]<>")),
        CharSet::OneOf(".-"),
    );
    if contains_text(t, "://"@) {
        None
    } else if contains_text(t, "/.openorchestrator/outbox/"@) {
        Some(t.skip(find_text(t, "/"@)->0))
    } else if contains_text(t, ".openorchestrator/outbox/"@) {
        Some(t.skip(find_text(t, ".openorchestrator/outbox/"@)->0))
    } else {
        None
    }
}

proof fn lemma_outbox_has_slash(t: Seq<char>)
    requires
        contains_text(t, "/.openorchestrator/outbox/"@),
    ensures
        contains_text(t, "/"@),
{
    reveal_strlit("/");
    reveal_strlit("/.openorchestrator/outbox/");
    let long = "/.openorchestrator/outbox/"@;
    let i = choose|i: int| matches_at(t, long, i);
    assert(t.subrange(i, i + long.len())[0] == long[0]);
    assert(t.subrange(i, i + 1) =~= "/"@);
    assert(matches_at(t, "/"@, i));
}

/// A word of a reply as the path of an output file, where it is one.
pub fn extract_slack_output_path_token(token: &str) -> (r: Option<String>)
    ensures
        opt_text(r) == output_token(token@),
{
    let t = trim_end_matches(
        trim_matches(token, &CharSet::OneOf("`\"',;:()[]<>")),
        &CharSet::OneOf(".-"),
    );
    if contains(t, "://") {
        return None;
    }
    if contains(t, "/.openorchestrator/outbox/") {
        proof {
            lemma_outbox_has_slash(t@);
        }
        return match find(t, "/") {
            Some(start) => Some(copy_text(text_from(t, start))),
            None => None,
        };
    }
    match find(t, ".openorchestrator/outbox/") {
        Some(start) => Some(copy_text(text_from(t, start))),
        None => None,
    }
}

/// The paths of output files among some words.
pub open spec fn output_tokens(tokens: Seq<Seq<char>>) -> Seq<Seq<char>>
    decreases tokens.len(),
{
    if tokens.len() == 0 {
        seq![]
    } else {
        match output_token(tokens.last()) {
            Some(path) => output_tokens(tokens.drop_last()).push(path),
            None => output_tokens(tokens.drop_last()),
        }
    }
}

/// The paths of output files that a reply names, each once.
pub open spec fn output_paths(reply: Seq<char>) -> Seq<Seq<char>> {
    distinct(output_tokens(words_of(reply)))
}

/// The paths of output files that a reply names, each once.
pub fn extract_slack_output_paths(reply_text: &str) -> (r: Vec<String>)
    ensures
        texts(r@) == output_paths(reply_text@),
{
    let tokens = words(reply_text);
    let ghost all = texts(tokens@);
    let mut output: Vec<String> = Vec::new();
    let mut i: usize = 0;
    assert(texts(output@) =~= distinct(output_tokens(all.take(0))));
    while i < tokens.len()
        invariant
            i <= tokens@.len(),
            all == texts(tokens@),
            texts(output@) == distinct(output_tokens(all.take(i as int))),
        decreases tokens@.len() - i,
    {
        assert(all.take(i + 1).drop_last() == all.take(i as int));
        assert(all.take(i + 1).last() == tokens@[i as int]@);
        if let Some(path) = extract_slack_output_path_token(tokens[i].as_str()) {
            let ghost found = output_tokens(all.take(i as int));
            assert(found.push(path@).drop_last() =~= found);
            push_distinct(&mut output, path);
        }
        i += 1;
    }
    assert(all.take(all.len() as int) == all);
    output
}

/// Where a path is seen from.
#[derive(Clone, Copy, Debug, PartialEq, Eq, Structural)]
pub enum SeenFrom {
    /// From nowhere: it is absolute.
    Root,
    /// From the current directory.
    CurrentDir,
    /// From the workspace at this index.
    Workspace(usize),
}

/// A place in which the file of a path may be: where the path is seen from, and what
/// it is from there, as text.
#[derive(Debug, PartialEq, Eq)]
pub struct OutputCandidate {
    pub seen_from: SeenFrom,
    pub shown: String,
}

#[verifier::ext_equal]
pub struct CandidateView {
    pub seen_from: SeenFrom,
    pub shown: Seq<char>,
}

impl View for OutputCandidate {
    type V = CandidateView;

    open spec fn view(&self) -> CandidateView {
        CandidateView { seen_from: self.seen_from, shown: self.shown@ }
    }
}

impl Clone for OutputCandidate {
    fn clone(&self) -> (r: Self)
        ensures
            r@ == self@,
    {
        OutputCandidate { seen_from: self.seen_from, shown: self.shown.clone() }
    }
}

/// The views of candidates.
pub open spec fn candidate_views(list: Seq<OutputCandidate>) -> Seq<CandidateView> {
    Seq::new(list.len(), |i: int| list[i]@)
}

/// What candidates are as texts.
pub open spec fn candidate_texts(list: Seq<CandidateView>) -> Seq<Seq<char>> {
    Seq::new(list.len(), |i: int| list[i].shown)
}

/// The candidates for a path that is not absolute: what it is from the current
/// directory and from each workspace.
pub open spec fn relative_candidates(
    path: Seq<char>,
    cwd: Option<Seq<char>>,
    roots: Seq<Seq<char>>,
) -> Seq<CandidateView> {
    (match cwd {
        Some(dir) => seq![
            CandidateView { seen_from: SeenFrom::CurrentDir, shown: joined_path(dir, path) },
        ],
        None => seq![],
    }) + Seq::new(
        roots.len(),
        |i: int|
            CandidateView {
                seen_from: SeenFrom::Workspace(i as usize),
                shown: joined_path(roots[i], path),
            },
    )
}

/// The places in which the file of a path may be: an absolute path alone, any
/// other seen from the current directory and from the workspaces, each text once.
pub open spec fn upload_candidates(
    path: Seq<char>,
    cwd: Option<Seq<char>>,
    roots: Seq<Seq<char>>,
) -> Seq<CandidateView> {
    if has_prefix(path, "/"@) {
        seq![CandidateView { seen_from: SeenFrom::Root, shown: path }]
    } else {
        let all = relative_candidates(path, cwd, roots);
        let places = first_places(candidate_texts(all));
        Seq::new(places.len(), |k: int| all[places[k]])
    }
}

fn list_relative_candidates(
    path: &str,
    cwd: Option<&str>,
    workspace_roots: &Vec<String>,
) -> (r: Vec<OutputCandidate>)
    ensures
        candidate_views(r@) == relative_candidates(path@, opt_str(cwd), texts(workspace_roots@)),
{
    let mut output: Vec<OutputCandidate> = Vec::new();
    if let Some(dir) = cwd {
        output.push(
            OutputCandidate { seen_from: SeenFrom::CurrentDir, shown: join_path(dir, path) },
        );
    }
    let ghost start = candidate_views(output@);
    let ghost roots = texts(workspace_roots@);
    let ghost seen = Seq::new(
        roots.len(),
        |i: int|
            CandidateView {
                seen_from: SeenFrom::Workspace(i as usize),
                shown: joined_path(roots[i], path@),
            },
    );
    let mut k: usize = 0;
    assert(start + seen.take(0) =~= start);
    while k < workspace_roots.len()
        invariant
            k <= workspace_roots@.len(),
            roots == texts(workspace_roots@),
            seen == Seq::new(
                roots.len(),
                |i: int|
                    CandidateView {
                        seen_from: SeenFrom::Workspace(i as usize),
                        shown: joined_path(roots[i], path@),
                    },
            ),
            candidate_views(output@) == start + seen.take(k as int),
        decreases workspace_roots@.len() - k,
    {
        let ghost before = output@;
        output.push(
            OutputCandidate {
                seen_from: SeenFrom::Workspace(k),
                shown: join_path(workspace_roots[k].as_str(), path),
            },
        );
        assert(candidate_views(output@) =~= candidate_views(before).push(seen[k as int]));
        assert(start + seen.take(k + 1) =~= (start + seen.take(k as int)).push(seen[k as int]));
        k += 1;
    }
    assert(seen.take(seen.len() as int) =~= seen);
    assert(candidate_views(output@) =~= relative_candidates(
        path@,
        opt_str(cwd),
        texts(workspace_roots@),
    ));
    output
}

fn list_candidate_texts(list: &Vec<OutputCandidate>) -> (r: Vec<String>)
    ensures
        texts(r@) == candidate_texts(candidate_views(list@)),
{
    let ghost all = candidate_texts(candidate_views(list@));
    let mut output: Vec<String> = Vec::new();
    let mut i: usize = 0;
    assert(texts(output@) =~= all.take(0));
    while i < list.len()
        invariant
            i <= list@.len(),
            all == candidate_texts(candidate_views(list@)),
            texts(output@) == all.take(i as int),
        decreases list@.len() - i,
    {
        let ghost before = output@;
        output.push(list[i].shown.clone());
        assert(texts(output@) =~= texts(before).push(all[i as int]));
        assert(all.take(i + 1) =~= all.take(i as int).push(all[i as int]));
        i += 1;
    }
    assert(all.take(all.len() as int) =~= all);
    output
}

/// The places in which the file of a path may be; the current directory and the
/// workspaces are given as texts.
pub fn candidate_output_upload_paths(
    path: &str,
    cwd: Option<&str>,
    workspace_roots: &Vec<String>,
) -> (r: Vec<OutputCandidate>)
    ensures
        candidate_views(r@) == upload_candidates(path@, opt_str(cwd), texts(workspace_roots@)),
{
    let mut output: Vec<OutputCandidate> = Vec::new();
    if starts_with(path, "/") {
        output.push(OutputCandidate { seen_from: SeenFrom::Root, shown: copy_text(path) });
        assert(candidate_views(output@) =~= upload_candidates(
            path@,
            opt_str(cwd),
            texts(workspace_roots@),
        ));
        return output;
    }
    let all = list_relative_candidates(path, cwd, workspace_roots);
    let ghost views = candidate_views(all@);
    let ghost keys = candidate_texts(views);
    let places = find_first_places(&list_candidate_texts(&all));
    let ghost first = first_places(keys);
    let ghost kept = upload_candidates(path@, opt_str(cwd), texts(workspace_roots@));
    proof {
        law_first_places(keys);
    }
    let mut k: usize = 0;
    assert(candidate_views(output@) =~= kept.take(0));
    while k < places.len()
        invariant
            k <= places@.len(),
            views == candidate_views(all@),
            keys.len() == views.len(),
            first == Seq::new(places@.len(), |k: int| places@[k] as int),
            forall|k: int| 0 <= k < first.len() ==> 0 <= #[trigger] first[k] < keys.len(),
            kept == Seq::new(first.len(), |k: int| views[first[k]]),
            candidate_views(output@) == kept.take(k as int),
        decreases places@.len() - k,
    {
        let ghost before = output@;
        assert(first[k as int] == places@[k as int]);
        output.push(all[places[k]].clone());
        assert(kept[k as int] == views[first[k as int]]);
        assert(candidate_views(output@) =~= candidate_views(before).push(kept[k as int]));
        assert(kept.take(k + 1) =~= kept.take(k as int).push(kept[k as int]));
        k += 1;
    }
    assert(kept.take(kept.len() as int) =~= kept);
    output
}

/// The index of the first place that is a file, by whether each is one.
pub fn pick_output_file(are_files: &Vec<bool>) -> (r: Option<usize>)
    ensures
        match r {
            Some(i) => i < are_files@.len() && are_files@[i as int] && forall|j: int|
                0 <= j < i ==> !#[trigger] are_files@[j],
            None => forall|j: int| 0 <= j < are_files@.len() ==> !#[trigger] are_files@[j],
        },
{
    let mut i: usize = 0;
    while i < are_files.len()
        invariant
            i <= are_files@.len(),
            forall|j: int| 0 <= j < i ==> !#[trigger] are_files@[j],
        decreases are_files@.len() - i,
    {
        if are_files[i] {
            return Some(i);
        }
        i += 1;
    }
    None
}

/// The channel to send to: the one of the message, or else the default one.
pub open spec fn target_channel(channel: Seq<char>, default_channel: Option<Seq<char>>) -> Seq<
    char,
> {
    if trimmed(channel).len() == 0 {
        match default_channel {
            Some(c) => trimmed(c),
            None => seq![],
        }
    } else {
        trimmed(channel)
    }
}

/// The channel to send to.
pub fn resolve_slack_target_channel(channel: &str, default_channel: Option<&str>) -> (r: String)
    ensures
        r@ == target_channel(channel@, opt_str(default_channel)),
{
    let t = trim(channel);
    if t.is_empty() {
        match default_channel {
            Some(c) => copy_text(trim(c)),
            None => String::new(),
        }
    } else {
        copy_text(t)
    }
}

/// The channel for the output files of a reply and the first few of their paths;
/// nothing where there is no channel, or no file.
pub open spec fn upload_plan(
    channel: Seq<char>,
    default_channel: Option<Seq<char>>,
    reply: Seq<char>,
) -> Option<(Seq<char>, Seq<Seq<char>>)> {
    let target = target_channel(channel, default_channel);
    let paths = output_paths(reply);
    if target.len() == 0 || paths.len() == 0 {
        None
    } else {
        Some((target, first_items(paths, MAX_SLACK_OUTPUT_UPLOADS as nat)))
    }
}

/// The channel for the output files of a reply and the first few of their paths.
pub fn plan_output_uploads(
    channel: &str,
    default_channel: Option<&str>,
    reply_text: &str,
) -> (r: Option<(String, Vec<String>)>)
    ensures
        match r {
            Some((target, paths)) => upload_plan(channel@, opt_str(default_channel), reply_text@)
                == Some((target@, texts(paths@))),
            None => upload_plan(channel@, opt_str(default_channel), reply_text@) is None,
        },
{
    let target = resolve_slack_target_channel(channel, default_channel);
    if target.as_str().is_empty() {
        return None;
    }
    let mut paths = extract_slack_output_paths(reply_text);
    assert(texts(paths@).len() == paths@.len());
    if paths.len() == 0 {
        return None;
    }
    let ghost all = paths@;
    if paths.len() > MAX_SLACK_OUTPUT_UPLOADS {
        paths.truncate(MAX_SLACK_OUTPUT_UPLOADS);
    }
    assert(texts(paths@) =~= first_items(texts(all), MAX_SLACK_OUTPUT_UPLOADS as nat));
    Some((target, paths))
}

/// Why a file is not sent.
#[derive(Debug)]
pub enum UploadError {
    NotAFile(String),
    TooLarge(String),
    BadName,
}

pub enum UploadErrorView {
    NotAFile(Seq<char>),
    TooLarge(Seq<char>),
    BadName,
}

impl View for UploadError {
    type V = UploadErrorView;

    open spec fn view(&self) -> UploadErrorView {
        match self {
            UploadError::NotAFile(path) => UploadErrorView::NotAFile(path@),
            UploadError::TooLarge(path) => UploadErrorView::TooLarge(path@),
            UploadError::BadName => UploadErrorView::BadName,
        }
    }
}

/// What is said of a file that is not sent.
pub open spec fn upload_error_text(e: UploadErrorView) -> Seq<char> {
    match e {
        UploadErrorView::NotAFile(path) => "output path is not a file: "@ + path,
        UploadErrorView::TooLarge(path) => "output file "@ + path + " exceeds max upload size "@
            + decimal(MAX_SLACK_ATTACHMENT_BYTES as nat) + " bytes"@,
        UploadErrorView::BadName => "output file has invalid utf-8 name"@,
    }
}

impl UploadError {
    /// What is said of the file.
    pub fn message(&self) -> (r: String)
        ensures
            r@ == upload_error_text(self@),
    {
        match self {
            UploadError::NotAFile(path) => {
                let mut out = copy_text("output path is not a file: ");
                out.append(path.as_str());
                out
            },
            UploadError::TooLarge(path) => {
                let mut out = copy_text("output file ");
                out.append(path.as_str());
                out.append(" exceeds max upload size ");
                out.append(decimal_text(MAX_SLACK_ATTACHMENT_BYTES).as_str());
                out.append(" bytes");
                out
            },
            UploadError::BadName => copy_text("output file has invalid utf-8 name"),
        }
    }
}

/// The name to send a file under, from what is known of it, or why it is not
/// sent.
pub fn check_output_file(
    path: &str,
    is_file: bool,
    len: u64,
    file_name: Option<&str>,
) -> (r: Result<String, UploadError>)
    ensures
        match r {
            Ok(name) => is_file && len <= MAX_SLACK_ATTACHMENT_BYTES && Some(name@) == opt_str(
                file_name,
            ),
            Err(e) => if !is_file {
                e@ == UploadErrorView::NotAFile(path@)
            } else if len > MAX_SLACK_ATTACHMENT_BYTES {
                e@ == UploadErrorView::TooLarge(path@)
            } else {
                file_name is None && e@ == UploadErrorView::BadName
            },
        },
{
    if !is_file {
        return Err(UploadError::NotAFile(copy_text(path)));
    }
    if len > MAX_SLACK_ATTACHMENT_BYTES {
        return Err(UploadError::TooLarge(copy_text(path)));
    }
    match file_name {
        Some(name) => Ok(copy_text(name)),
        None => Err(UploadError::BadName),
    }
}

} // verus!
