//! What holds of files in Slack: that their names stay in their place, that each
//! is dealt with once, and that no more are than may be.
use crate::config::ConfigView;
use crate::json::JsonView;
use crate::number::{decimal, digit_char};
use crate::paths::joined_path;
use crate::slack::slack_session;
use crate::slack_files::{
    advanced, agent_workspace, agent_workspaces, attachment_job, attachments_of,
    candidate_texts, file_attachment, file_char, file_key, file_keys, file_name, file_url,
    inbox_path, is_file_char, noted, output_paths, output_token, output_tokens,
    path_component, relative_candidates, target_channel, too_large_text, two_digits,
    upload_candidates, upload_plan, JobView, MAX_FILE_NAME_CHARS, MAX_SLACK_OUTPUT_UPLOADS,
};
use crate::state::first_items;
use crate::text::{
    contains_text, distinct, find_text, first_places, has_prefix, law_distinct,
    law_first_places, law_trim_set, lemma_find_text,
    lemma_trim_end, matches_at, trim_end_of, trim_set, trim_start_of, trimmed, words_of,
    CharSet,
};
use vstd::prelude::*;

verus! {

// Names.
/// Whether all of a text may stand in the name of a file.
pub open spec fn all_file_chars(s: Seq<char>) -> bool {
    forall|i: int| 0 <= i < s.len() ==> is_file_char(#[trigger] s[i])
}

/// A part of a path is never empty, holds nothing but letters, digits, dots,
/// hyphens and underscores (so no `/`), and names neither this directory nor the
/// one above.
pub proof fn law_path_component_is_safe(value: Seq<char>, fallback: Seq<char>)
    requires
        fallback.len() > 0,
        all_file_chars(fallback),
        fallback != "."@,
        fallback != ".."@,
    ensures
        path_component(value, fallback).len() > 0,
        all_file_chars(path_component(value, fallback)),
        !path_component(value, fallback).contains('/'),
        path_component(value, fallback) != "."@,
        path_component(value, fallback) != ".."@,
{
    let mapped = Seq::new(value.len(), |i: int| file_char(value[i]));
    let once = trim_set(mapped, CharSet::OneOf("."));
    let twice = trim_set(once, CharSet::OneOf("-"));
    law_trim_set(mapped, CharSet::OneOf("."));
    law_trim_set(once, CharSet::OneOf("-"));
    assert forall|i: int| 0 <= i < twice.len() implies is_file_char(#[trigger] twice[i]) by {
        let k = choose|k: int| 0 <= k < once.len() && once[k] == twice[i];
        let m = choose|m: int| 0 <= m < mapped.len() && mapped[m] == once[k];
        assert(mapped[m] == file_char(value[m]));
    }
    assert(!is_file_char('/'));
}

/// The name of a file is never empty, is made of letters, digits, dots, hyphens
/// and underscores, names no directory above, and is not too long.
pub proof fn law_file_name_is_safe(value: Seq<char>)
    ensures
        0 < file_name(value).len() <= MAX_FILE_NAME_CHARS,
        all_file_chars(file_name(value)),
        !file_name(value).contains('/'),
        file_name(value) != "."@,
        file_name(value) != ".."@,
{
    reveal_strlit("attachment.bin");
    reveal_strlit(".");
    reveal_strlit("..");
    let fallback = "attachment.bin"@;
    assert(all_file_chars(fallback));
    law_path_component_is_safe(value, fallback);
    let first = first_items(path_component(value, fallback), MAX_FILE_NAME_CHARS as nat);
    law_trim_set(first, CharSet::Space);
    let t = trimmed(first);
    assert forall|i: int| 0 <= i < t.len() implies is_file_char(#[trigger] t[i]) by {
        let k = choose|k: int| 0 <= k < first.len() && first[k] == t[i];
        assert(first[k] == path_component(value, fallback)[k]);
    }
    assert(trim_start_of(first, CharSet::Space) == first) by {
        assert(first[0] == path_component(value, fallback)[0]);
    }
    assert(t == first) by {
        assert(first.last() == path_component(value, fallback)[first.len() - 1]);
    }
    assert(!is_file_char('/'));
}

/// A file of a session in Slack is kept in a directory of its own under the
/// inbox: the names of the directory and of the file hold no `/`, the directory's
/// starts with `slack` and the file's with its number.
pub proof fn law_inbox_path_stays_inside(
    channel: Seq<char>,
    thread_ts: Option<Seq<char>>,
    index: nat,
    name: Seq<char>,
)
    ensures
        ({
            let session = slack_session(channel, thread_ts);
            let directory = path_component(session, "slack-session"@);
            let file = two_digits(index) + "-"@ + file_name(name);
            &&& inbox_path(session, index, name) == ".openorchestrator/inbox/"@ + directory + "/"@
                + file
            &&& !directory.contains('/')
            &&& has_prefix(directory, "slack"@)
            &&& !file.contains('/')
            &&& has_prefix(file, two_digits(index))
        }),
{
    let session = slack_session(channel, thread_ts);
    let fallback = "slack-session"@;
    let directory = path_component(session, fallback);
    let file = two_digits(index) + "-"@ + file_name(name);
    reveal_strlit("slack-session");
    reveal_strlit("slack:");
    reveal_strlit("slack");
    reveal_strlit("-");
    reveal_strlit(".");
    reveal_strlit("..");
    assert(all_file_chars(fallback));
    law_path_component_is_safe(session, fallback);
    law_file_name_is_safe(name);
    lemma_two_digits(index);
    assert(inbox_path(session, index, name) =~= ".openorchestrator/inbox/"@ + directory + "/"@
        + file);
    assert(!file.contains('/')) by {
        if file.contains('/') {
            let k = choose|k: int| 0 <= k < file.len() && file[k] == '/';
            let n = two_digits(index).len();
            if k < n {
                assert(two_digits(index)[k] == '/');
            } else if k == n {
                assert("-"@[0] == '/');
            } else {
                assert(file_name(name)[k - n - 1] == '/');
            }
        }
    }
    assert(file.take(two_digits(index).len() as int) =~= two_digits(index));
    let mapped = Seq::new(session.len(), |i: int| file_char(session[i]));
    let dots = CharSet::OneOf(".");
    let hyphens = CharSet::OneOf("-");
    assert(mapped[0] == 's' && mapped[1] == 'l' && mapped[2] == 'a' && mapped[3] == 'c' && mapped[4]
        == 'k');
    lemma_trim_keeps_start(mapped, dots, 5);
    let once = trim_set(mapped, dots);
    assert(once.take(5)[0] == mapped.take(5)[0] && once.take(5)[4] == mapped.take(5)[4]);
    lemma_trim_keeps_start(once, hyphens, 5);
    let twice = trim_set(once, hyphens);
    assert(twice.len() >= 5);
    assert(directory == twice);
    assert(twice.take(5) =~= mapped.take(5));
    assert(twice.take(5) =~= "slack"@);
}

proof fn lemma_trim_keeps_start(s: Seq<char>, set: CharSet, n: int)
    requires
        0 < n <= s.len(),
        !set.has(s[0]),
        !set.has(s[n - 1]),
    ensures
        trim_set(s, set).len() >= n,
        trim_set(s, set).take(n) == s.take(n),
{
    assert(trim_start_of(s, set) == s);
    lemma_trim_end(s, set);
    lemma_trim_end_reaches(s, set, n);
    assert(trim_set(s, set).take(n) =~= s.take(n));
}

proof fn lemma_trim_end_reaches(s: Seq<char>, set: CharSet, n: int)
    requires
        0 < n <= s.len(),
        !set.has(s[n - 1]),
    ensures
        trim_end_of(s, set).len() >= n,
    decreases s.len(),
{
    if set.has(s.last()) {
        assert(n < s.len());
        lemma_trim_end_reaches(s.drop_last(), set, n);
    }
}

proof fn lemma_decimal_chars(n: nat)
    ensures
        !decimal(n).contains('/'),
        decimal(n).len() > 0,
    decreases n,
{
    if n >= 10 {
        lemma_decimal_chars(n / 10);
        let d = decimal(n / 10);
        let last = digit_char(n % 10);
        if d.push(last).contains('/') {
            let k = choose|k: int| 0 <= k < d.push(last).len() && d.push(last)[k] == '/';
            if k < d.len() {
                assert(d[k] == '/');
            }
        }
    } else if decimal(n).contains('/') {
        assert(decimal(n)[0] == '/');
    }
}

proof fn lemma_two_digits(n: nat)
    ensures
        !two_digits(n).contains('/'),
{
    reveal_strlit("0");
    lemma_decimal_chars(n);
    if n < 10 && two_digits(n).contains('/') {
        let t = two_digits(n);
        let k = choose|k: int| 0 <= k < t.len() && t[k] == '/';
        if k > 0 {
            assert(decimal(n)[k - 1] == '/');
        }
    }
}

// Attachments.
/// Every attachment can be had and has a name, and comes from a file of the
/// event.
pub proof fn law_attachments_can_be_had(files: Seq<JsonView>, i: int)
    requires
        0 <= i < attachments_of(files).len(),
    ensures
        attachments_of(files)[i].download_url.len() > 0,
        attachments_of(files)[i].name.len() > 0,
        exists|k: int| 0 <= k < files.len() && attachments_of(files)[i] == file_attachment(#[trigger] files[k]),
    decreases files.len(),
{
    let rest = files.drop_last();
    let before = attachments_of(rest);
    if i < before.len() {
        law_attachments_can_be_had(rest, i);
        let k = choose|k: int|
            0 <= k < rest.len() && before[i] == file_attachment(#[trigger] rest[k]);
        assert(files[k] == rest[k]);
        assert(attachments_of(files)[i] == before[i]);
    } else {
        reveal_strlit("attachment.bin");
        assert(attachments_of(files)[i] == file_attachment(files[files.len() - 1]));
    }
}

/// A file whose key came before is not taken again; one that can be had and whose
/// key is new is.
pub proof fn law_attachments_are_distinct(files: Seq<JsonView>, item: JsonView)
    ensures
        file_url(item).len() > 0 && file_keys(files).contains(file_key(item)) ==> attachments_of(
            files.push(item),
        ) == attachments_of(files),
        file_url(item).len() > 0 && !file_keys(files).contains(file_key(item)) ==> attachments_of(
            files.push(item),
        ) == attachments_of(files).push(file_attachment(item)),
        file_url(item).len() == 0 ==> attachments_of(files.push(item)) == attachments_of(files),
{
    assert(files.push(item).drop_last() =~= files);
}

/// A job for files starts well formed, with no more files than may be.
pub proof fn law_job_starts_well(
    bot_token: Option<Seq<char>>,
    event: JsonView,
    session: Seq<char>,
)
    requires
        attachment_job(bot_token, event, session) is Some,
    ensures
        attachment_job(bot_token, event, session)->0.well_formed(),
        attachment_job(bot_token, event, session)->0.attachments.len() > 0,
{
}

/// Each file that is dealt with brings a job nearer to its end, and something is
/// said of it; what was said of others stays.
pub proof fn law_job_goes_on(job: JobView, line: Seq<char>, saved: bool)
    requires
        job.well_formed(),
        job.index < job.attachments.len(),
    ensures
        noted(job, line, saved).well_formed(),
        noted(job, line, saved).index == job.index + 1,
        noted(job, line, saved).lines.take(job.lines.len() as int) == job.lines,
        noted(job, line, saved).attachments == job.attachments,
{
    assert(noted(job, line, saved).lines.take(job.lines.len() as int) =~= job.lines);
}

/// Passing over files that are too large saves none, keeps what was said of others,
/// and stops at one that may be fetched or at the end.
pub proof fn law_job_advances(job: JobView)
    requires
        job.well_formed(),
    ensures
        advanced(job).well_formed(),
        !advanced(job).skips(),
        advanced(job).index >= job.index,
        advanced(job).saved == job.saved,
        advanced(job).attachments == job.attachments,
        advanced(job).lines.take(job.lines.len() as int) == job.lines,
    decreases job.attachments.len() - job.index,
{
    if job.skips() {
        let next = noted(job, too_large_text(), false);
        law_job_advances(next);
        let end = advanced(job).lines;
        assert(end.take(next.lines.len() as int) == next.lines);
        assert forall|i: int| 0 <= i < job.lines.len() implies end[i] == job.lines[i] by {
            assert(end.take(next.lines.len() as int)[i] == next.lines[i]);
        }
    }
    assert(advanced(job).lines.take(job.lines.len() as int) =~= job.lines);
}

// Output files.
proof fn lemma_output_tokens(tokens: Seq<Seq<char>>, path: Seq<char>)
    requires
        output_tokens(tokens).contains(path),
    ensures
        exists|k: int| 0 <= k < tokens.len() && output_token(#[trigger] tokens[k]) == Some(path),
    decreases tokens.len(),
{
    if tokens.len() > 0 {
        let rest = tokens.drop_last();
        let before = output_tokens(rest);
        let all = output_tokens(tokens);
        let i = choose|i: int| 0 <= i < all.len() && all[i] == path;
        if i < before.len() {
            assert(before[i] == path);
            lemma_output_tokens(rest, path);
            let k = choose|k: int|
                0 <= k < rest.len() && output_token(#[trigger] rest[k]) == Some(path);
            assert(tokens[k] == rest[k]);
        } else {
            assert(output_token(tokens[tokens.len() - 1]) == Some(path));
        }
    }
}

/// The paths of output files that a reply names are each named once, lie in an
/// outbox, and are no addresses on a network.
pub proof fn law_output_paths(reply: Seq<char>, path: Seq<char>)
    ensures
        output_paths(reply).no_duplicates(),
        output_paths(reply).contains(path) ==> contains_text(path, ".openorchestrator/outbox/"@)
            && !contains_text(path, "://"@),
{
    let tokens = words_of(reply);
    law_distinct(output_tokens(tokens));
    if output_paths(reply).contains(path) {
        lemma_output_tokens(tokens, path);
        let k = choose|k: int|
            0 <= k < tokens.len() && output_token(#[trigger] tokens[k]) == Some(path);
        lemma_output_token(tokens[k]);
    }
}

pub proof fn lemma_output_token(token: Seq<char>)
    requires
        output_token(token) is Some,
    ensures
        contains_text(output_token(token)->0, ".openorchestrator/outbox/"@),
        !contains_text(output_token(token)->0, "://"@),
{
    let t = trim_end_of(
        trim_set(token, CharSet::OneOf("`\"',;:()[]<>")),
        CharSet::OneOf(".-"),
    );
    let long = "/.openorchestrator/outbox/"@;
    let short = ".openorchestrator/outbox/"@;
    reveal_strlit("/.openorchestrator/outbox/");
    reveal_strlit(".openorchestrator/outbox/");
    reveal_strlit("/");
    reveal_strlit("://");
    let path = output_token(token)->0;
    lemma_find_text(t, "/"@);
    lemma_find_text(t, short);
    if contains_text(t, long) {
        let i = choose|i: int| matches_at(t, long, i);
        assert(t.subrange(i, i + long.len())[0] == long[0]);
        assert(t.subrange(i, i + 1) =~= "/"@);
        assert(matches_at(t, "/"@, i));
        let start = find_text(t, "/"@)->0;
        assert(start <= i);
        assert(short =~= long.skip(1));
        assert(path.subrange(i - start + 1, i - start + 1 + short.len()) =~= t.subrange(
            i,
            i + long.len(),
        ).skip(1));
        assert(matches_at(path, short, i - start + 1));
        if contains_text(path, "://"@) {
            lemma_suffix_contains(t, start, "://"@);
        }
    } else {
        let start = find_text(t, short)->0;
        assert(path.subrange(0, short.len() as int) =~= t.subrange(start, start + short.len()));
        assert(matches_at(path, short, 0));
        if contains_text(path, "://"@) {
            lemma_suffix_contains(t, start, "://"@);
        }
    }
}

proof fn lemma_suffix_contains(s: Seq<char>, start: int, t: Seq<char>)
    requires
        0 <= start <= s.len(),
        contains_text(s.skip(start), t),
    ensures
        contains_text(s, t),
{
    let i = choose|i: int| matches_at(s.skip(start), t, i);
    assert(s.subrange(start + i, start + i + t.len()) =~= s.skip(start).subrange(i, i + t.len()));
    assert(matches_at(s, t, start + i));
}

/// The workspaces of the agents are each shown once.
pub proof fn law_workspaces_are_distinct(cfg: ConfigView, home: Option<Seq<char>>)
    ensures
        forall|i: int, j: int|
            0 <= i < j < agent_workspaces(cfg, home).len() ==> (#[trigger] agent_workspaces(
                cfg,
                home,
            )[i]).shown(home) != (#[trigger] agent_workspaces(cfg, home)[j]).shown(home),
        agent_workspaces(cfg, home).len() > 0,
{
    let all = Seq::new(
        cfg.agents.len(),
        |i: int| agent_workspace(cfg.agents[i], cfg.brain.workspace, home),
    );
    let keys = Seq::new(all.len(), |i: int| all[i].shown(home));
    let places = first_places(keys);
    let kept = Seq::new(places.len(), |k: int| keys[places[k]]);
    law_first_places(keys);
    law_distinct(keys);
    if cfg.agents.len() > 0 {
        assert forall|i: int, j: int|
            0 <= i < j < agent_workspaces(cfg, home).len() implies (#[trigger] agent_workspaces(
            cfg,
            home,
        )[i]).shown(home) != (#[trigger] agent_workspaces(cfg, home)[j]).shown(home) by {
            assert(0 <= places[i] < keys.len() && 0 <= places[j] < keys.len());
            assert(kept[i] == agent_workspaces(cfg, home)[i].shown(home));
            assert(kept[j] == agent_workspaces(cfg, home)[j].shown(home));
            assert(distinct(keys)[i] != distinct(keys)[j]);
        }
    }
}

/// The places in which a file may be are each named once, and those of a relative
/// path are what it is from the current directory and from each workspace.
pub proof fn law_upload_candidates(
    path: Seq<char>,
    cwd: Option<Seq<char>>,
    roots: Seq<Seq<char>>,
    k: int,
)
    requires
        0 <= k < roots.len(),
    ensures
        candidate_texts(upload_candidates(path, cwd, roots)).no_duplicates(),
        !has_prefix(path, "/"@) ==> candidate_texts(upload_candidates(path, cwd, roots)).contains(
            joined_path(roots[k], path),
        ),
        !has_prefix(path, "/"@) && cwd is Some ==> candidate_texts(
            upload_candidates(path, cwd, roots),
        ).contains(joined_path(cwd->0, path)),
        has_prefix(path, "/"@) ==> candidate_texts(upload_candidates(path, cwd, roots)) == seq![
            path,
        ],
{
    let shown = candidate_texts(upload_candidates(path, cwd, roots));
    if !has_prefix(path, "/"@) {
        let all = relative_candidates(path, cwd, roots);
        let keys = candidate_texts(all);
        let places = first_places(keys);
        law_first_places(keys);
        law_distinct(keys);
        let kept = Seq::new(places.len(), |k: int| keys[places[k]]);
        assert forall|i: int| 0 <= i < places.len() implies shown[i] == kept[i] by {
            assert(0 <= places[i] < keys.len());
        }
        assert(shown =~= kept);
        if cwd is Some {
            assert(keys[0] == joined_path(cwd->0, path));
            assert(keys.contains(joined_path(cwd->0, path)));
            assert(keys[k + 1] == joined_path(roots[k], path));
        } else {
            assert(keys[k] == joined_path(roots[k], path));
        }
        assert(keys.contains(joined_path(roots[k], path)));
    } else {
        assert(shown =~= seq![path]);
    }
}

/// No more output files are sent than may be, and to a channel that has a name.
pub proof fn law_upload_plan_is_bounded(
    channel: Seq<char>,
    default_channel: Option<Seq<char>>,
    reply: Seq<char>,
)
    requires
        upload_plan(channel, default_channel, reply) is Some,
    ensures
        (upload_plan(channel, default_channel, reply)->0).0 == target_channel(
            channel,
            default_channel,
        ),
        (upload_plan(channel, default_channel, reply)->0).0.len() > 0,
        0 < (upload_plan(channel, default_channel, reply)->0).1.len() <= MAX_SLACK_OUTPUT_UPLOADS,
{
}

} // verus!
