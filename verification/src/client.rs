//! The conversation with Hyprland: where its socket lies, what is asked over
//! it, and what the replies mean.
use vstd::prelude::*;

use crate::model::{views, workspace_label, Monitor, MonitorView, Workspace, WorkspaceView};
use crate::order::{
    in_order, in_order_is_stable_sort, is_stable_sort, lemma_filter_none, sort, tied_with, Ranked,
};
use crate::selection::{lemma_position_is, lemma_position_none, position, position_is_first};
use crate::shell::{
    escaped, escaped_argument_is_read_back, fields, fields_from, only_plain_arguments_stay,
    shell_escape_arg, Quote,
};
use crate::text::{
    agreement_up_to_case, core_of, eq_ignore_ascii_case, is_text_less, is_whitespace,
    same_ignoring_case, text_less, text_less_irreflexive, text_less_total, text_less_transitive,
    trim, trimmed,
};

verus! {

/// `component` adjoined to the Unix path `base`: an absolute component stands
/// for itself, and a separator is put between the two where none is.
pub open spec fn joined(base: Seq<char>, component: Seq<char>) -> Seq<char> {
    if component.len() > 0 && component[0] == '/' {
        component
    } else if base.len() == 0 || base.last() == '/' {
        base + component
    } else {
        base.push('/') + component
    }
}

/// Adjoins `component` to the Unix path `base`.
pub fn join_path(base: &str, component: &str) -> (path: String)
    ensures
        path@ == joined(base@, component@),
{
    let base_len = base.unicode_len();
    if component.unicode_len() > 0 && component.get_char(0) == '/' {
        return component.to_string();
    }
    let mut path = base.to_string();
    if base_len > 0 && base.get_char(base_len - 1) != '/' {
        path.push('/');
    }
    path.append(component);
    path
}

/// The place of the command socket of the instance `signature` below `base`.
pub open spec fn socket_below(base: Seq<char>, signature: Seq<char>) -> Seq<char> {
    joined(joined(joined(base, "hypr"@), signature), ".socket.sock"@)
}

fn socket_path_below(base: &str, signature: &str) -> (path: String)
    ensures
        path@ == socket_below(base@, signature@),
{
    let hypr = join_path(base, "hypr");
    let instance = join_path(hypr.as_str(), signature);
    join_path(instance.as_str(), ".socket.sock")
}

/// Where the command socket may lie, in order of preference: below the runtime
/// directory, if there is one, and below `/tmp`.
pub open spec fn candidates(signature: Seq<char>, runtime_dir: Option<Seq<char>>) -> Seq<
    Seq<char>,
> {
    match runtime_dir {
        Some(dir) => seq![socket_below(dir, signature), socket_below("/tmp"@, signature)],
        None => seq![socket_below("/tmp"@, signature)],
    }
}

/// Where the command socket may lie, in order of preference. Without a
/// signature there is no Hyprland session to talk to.
pub fn socket_candidates(signature: Option<&str>, runtime_dir: Option<&str>) -> (paths: Result<
    Vec<String>,
    String,
>)
    ensures
        match signature {
            Some(s) => paths is Ok && views(paths->Ok_0@) == candidates(
                s@,
                match runtime_dir {
                    Some(dir) => Some(dir@),
                    None => None,
                },
            ),
            None => paths is Err && paths->Err_0@
                == "HYPRLAND_INSTANCE_SIGNATURE is not set. Run hyprtuird inside a Hyprland session."@,
        },
{
    match signature {
        None => Err(
            "HYPRLAND_INSTANCE_SIGNATURE is not set. Run hyprtuird inside a Hyprland session.".to_string(),
        ),
        Some(signature) => {
            let mut paths: Vec<String> = Vec::new();
            if let Some(dir) = runtime_dir {
                paths.push(socket_path_below(dir, signature));
            }
            paths.push(socket_path_below("/tmp", signature));
            Ok(paths)
        },
    }
}

/// A path, and whether something exists there.
#[derive(Debug)]
pub struct Probe {
    pub path: String,
    pub exists: bool,
}

/// The predicate of existing.
pub open spec fn does_exist() -> spec_fn(Probe) -> bool {
    |probe: Probe| probe.exists
}

/// The path to connect to: the first that exists, else the first of all.
pub open spec fn chosen(probes: Seq<Probe>) -> Option<Seq<char>> {
    if probes.len() == 0 {
        None
    } else {
        match position(probes, does_exist()) {
            Some(index) => Some(probes[index as int].path@),
            None => Some(probes[0].path@),
        }
    }
}

/// What is reported when connecting to the socket at `path` fails with `reason`.
pub open spec fn connect_failure_text(path: Seq<char>, reason: Seq<char>) -> Seq<char> {
    "Failed to connect to Hyprland socket "@ + path + ": "@ + reason
}

/// The client of a Hyprland instance.
#[derive(Debug)]
pub struct HyprlandClient {
    pub socket_path: String,
}

impl HyprlandClient {
    /// The client for the first of the candidates that exists, else for the
    /// first candidate.
    pub fn from_probes(probes: &Vec<Probe>) -> (client: Result<HyprlandClient, String>)
        ensures
            match chosen(probes@) {
                Some(path) => client is Ok && client->Ok_0.socket_path@ == path,
                None => client is Err && client->Err_0@
                    == "Could not build a Hyprland IPC socket path."@,
            },
    {
        let ghost present = does_exist();
        let mut index: usize = 0;
        while index < probes.len()
            invariant
                index <= probes@.len(),
                present == does_exist(),
                forall|i: int| 0 <= i < index ==> !present(#[trigger] probes@[i]),
            decreases probes@.len() - index,
        {
            if probes[index].exists {
                proof {
                    lemma_position_is(probes@, present, index as int);
                }
                return Ok(HyprlandClient { socket_path: probes[index].path.clone() });
            }
            index = index + 1;
        }
        proof {
            lemma_position_none(probes@, present);
        }
        if probes.len() == 0 {
            Err("Could not build a Hyprland IPC socket path.".to_string())
        } else {
            Ok(HyprlandClient { socket_path: probes[0].path.clone() })
        }
    }

    /// What is reported when connecting to the socket fails with `reason`.
    pub fn connect_failure(&self, reason: &str) -> (message: String)
        ensures
            message@ == "Failed to connect to Hyprland socket "@ + self.socket_path@ + ": "@
                + reason@,
            message@ == connect_failure_text(self.socket_path@, reason@),
    {
        let mut message = "Failed to connect to Hyprland socket ".to_string();
        message.append(self.socket_path.as_str());
        message.append(": ");
        message.append(reason);
        message
    }

    /// The workspaces as they are listed: numbered ones by number, then the
    /// others by name.
    pub fn workspaces(&self, reported: Vec<Workspace>) -> (listed: Vec<Workspace>)
        ensures
            is_stable_sort::<Workspace>(views(reported@), views(listed@)),
            views(listed@) == in_order::<Workspace>(views(reported@)),
    {
        sort(reported)
    }

    /// The monitors as they are listed: by number.
    pub fn monitors(&self, reported: Vec<Monitor>) -> (listed: Vec<Monitor>)
        ensures
            is_stable_sort::<Monitor>(views(reported@), views(listed@)),
            views(listed@) == in_order::<Monitor>(views(reported@)),
    {
        sort(reported)
    }

    /// What came of moving `workspace` to `monitor`, given the reply to the
    /// command: a message that says so, or the reason why it failed.
    pub fn move_workspace_to_monitor(
        &self,
        workspace: &Workspace,
        monitor: &Monitor,
        reply: Result<String, String>,
    ) -> (outcome: Result<String, String>)
        ensures
            result_of(outcome) == move_outcome(workspace@, monitor@, result_of(reply)),
    {
        let response = match reply {
            Ok(response) => response,
            Err(reason) => {
                return Err(reason);
            },
        };
        let answer = trim(response.as_str());
        if eq_ignore_ascii_case(answer, "ok") {
            let mut message = "Moved workspace ".to_string();
            message.append(workspace_label(workspace).as_str());
            message.append(" to ");
            message.append(monitor.name.as_str());
            Ok(message)
        } else {
            let mut message = "Hyprland rejected move: ".to_string();
            message.append(answer);
            Err(message)
        }
    }
}

/// What asks Hyprland for its workspaces.
pub fn workspaces_request() -> (request: &'static str)
    ensures
        request@ == "j/workspaces"@,
{
    "j/workspaces"
}

/// What asks Hyprland for its monitors.
pub fn monitors_request() -> (request: &'static str)
    ensures
        request@ == "j/monitors"@,
{
    "j/monitors"
}

/// The command that moves a workspace to a monitor.
pub open spec fn move_command_text(workspace: Seq<char>, monitor: Seq<char>) -> Seq<char> {
    "dispatch"@ + " "@ + "moveworkspacetomonitor"@ + " "@ + escaped(workspace) + " "@ + escaped(
        monitor,
    )
}

/// The command that moves `workspace` to `monitor`.
pub fn move_command(workspace: &Workspace, monitor: &Monitor) -> (command: String)
    ensures
        command@ == move_command_text(workspace.name@, monitor.name@),
{
    let workspace_arg = shell_escape_arg(workspace.name.as_str());
    let monitor_arg = shell_escape_arg(monitor.name.as_str());
    let mut command = "dispatch".to_string();
    command.append(" ");
    command.append("moveworkspacetomonitor");
    command.append(" ");
    command.append(workspace_arg.as_str());
    command.append(" ");
    command.append(monitor_arg.as_str());
    command
}

/// What the texts in a result hold.
pub open spec fn result_of(result: Result<String, String>) -> Result<Seq<char>, Seq<char>> {
    match result {
        Ok(text) => Ok(text@),
        Err(text) => Err(text@),
    }
}

/// Hyprland accepts a command by replying `ok`, in letters of any case and with
/// any whitespace around it.
pub open spec fn is_accepted(reply: Seq<char>) -> bool {
    same_ignoring_case(trimmed(reply), "ok"@)
}

/// What a move comes to: a failed request fails it for the same reason, and a
/// reply that does not accept it is given as the reason.
pub open spec fn move_outcome(
    workspace: WorkspaceView,
    monitor: MonitorView,
    reply: Result<Seq<char>, Seq<char>>,
) -> Result<Seq<char>, Seq<char>> {
    match reply {
        Ok(response) => if is_accepted(response) {
            Ok("Moved workspace "@ + workspace.name + " to "@ + monitor.name)
        } else {
            Err("Hyprland rejected move: "@ + trimmed(response))
        },
        Err(reason) => Err(reason),
    }
}

impl Ranked for Workspace {
    /// Workspaces with a number of their own come first, by number; the others,
    /// which have negative numbers, follow by name.
    open spec fn precedes(a: WorkspaceView, b: WorkspaceView) -> bool {
        if a.id >= 0 && b.id >= 0 {
            a.id < b.id
        } else if a.id < 0 && b.id < 0 {
            text_less(a.name, b.name)
        } else {
            a.id >= 0
        }
    }

    proof fn precedes_irreflexive(a: WorkspaceView) {
        text_less_irreflexive(a.name);
    }

    proof fn precedes_transitive(a: WorkspaceView, b: WorkspaceView, c: WorkspaceView) {
        if a.id < 0 && b.id < 0 && c.id < 0 {
            text_less_transitive(a.name, b.name, c.name);
        }
    }

    proof fn ties_transitive(a: WorkspaceView, b: WorkspaceView, c: WorkspaceView) {
        if a.id < 0 {
            text_less_total(a.name, b.name);
            text_less_total(b.name, c.name);
            text_less_irreflexive(a.name);
        }
    }

    fn comes_before(&self, other: &Self) -> (before: bool) {
        if self.id >= 0 && other.id >= 0 {
            self.id < other.id
        } else if self.id < 0 && other.id < 0 {
            is_text_less(self.name.as_str(), other.name.as_str())
        } else {
            self.id >= 0
        }
    }
}

impl Ranked for Monitor {
    open spec fn precedes(a: MonitorView, b: MonitorView) -> bool {
        a.id < b.id
    }

    proof fn precedes_irreflexive(a: MonitorView) {
    }

    proof fn precedes_transitive(a: MonitorView, b: MonitorView, c: MonitorView) {
    }

    proof fn ties_transitive(a: MonitorView, b: MonitorView, c: MonitorView) {
    }

    fn comes_before(&self, other: &Self) -> (before: bool) {
        self.id < other.id
    }
}

/// A move command reads, in the manner of a shell, as four fields: the dispatcher
/// call and the two names, whatever characters the names hold.
pub proof fn move_command_names_its_arguments(workspace: Seq<char>, monitor: Seq<char>)
    ensures
        fields(move_command_text(workspace, monitor)) == Some(
            seq!["dispatch"@, "moveworkspacetomonitor"@, workspace, monitor],
        ),
{
    let verb = "dispatch"@;
    let call = "moveworkspacetomonitor"@;
    let none = Seq::<char>::empty();
    reveal_strlit("dispatch");
    reveal_strlit("moveworkspacetomonitor");
    reveal_strlit(" ");
    assert(" "@ =~= seq![' ']);
    assert(escaped(verb) == verb);
    assert(escaped(call) == call);
    let r3 = " "@ + escaped(monitor);
    let r2 = " "@ + escaped(workspace) + r3;
    let r1 = " "@ + call + r2;
    assert(move_command_text(workspace, monitor) =~= verb + r1);
    escaped_argument_is_read_back(verb, r1, none);
    assert(none + verb == verb);
    assert(r1.drop_first() =~= call + r2);
    escaped_argument_is_read_back(call, r2, none);
    assert(none + call == call);
    assert(r2.drop_first() =~= escaped(workspace) + r3);
    escaped_argument_is_read_back(workspace, r3, none);
    assert(none + workspace == workspace);
    assert(r3.drop_first() =~= escaped(monitor) + none);
    escaped_argument_is_read_back(monitor, none, none);
    assert(none + monitor == monitor);
    assert(fields_from(none, Quote::Bare, monitor) == Some(seq![monitor]));
    assert(fields_from(r3, Quote::Bare, workspace) == Some(seq![workspace] + seq![monitor]));
    assert(fields_from(r2, Quote::Bare, call) == Some(
        seq![call] + (seq![workspace] + seq![monitor]),
    ));
    assert(fields_from(r1, Quote::Bare, verb) == Some(
        seq![verb] + (seq![call] + (seq![workspace] + seq![monitor])),
    ));
    assert(seq![verb] + (seq![call] + (seq![workspace] + seq![monitor])) =~= seq![
        verb,
        call,
        workspace,
        monitor,
    ]);
}

/// Moves of different workspaces, or to different monitors, have different
/// commands.
pub proof fn move_command_is_injective(
    workspace: Seq<char>,
    monitor: Seq<char>,
    other_workspace: Seq<char>,
    other_monitor: Seq<char>,
)
    requires
        move_command_text(workspace, monitor) == move_command_text(
            other_workspace,
            other_monitor,
        ),
    ensures
        workspace == other_workspace,
        monitor == other_monitor,
{
    move_command_names_its_arguments(workspace, monitor);
    move_command_names_its_arguments(other_workspace, other_monitor);
    let a = seq!["dispatch"@, "moveworkspacetomonitor"@, workspace, monitor];
    let b = seq!["dispatch"@, "moveworkspacetomonitor"@, other_workspace, other_monitor];
    assert(a[2] == b[2] && a[3] == b[3]);
}

/// The listed workspaces are the reported ones: first those with a number of
/// their own, by number, then the others, by name.
pub proof fn numbered_workspaces_come_first(reported: Seq<WorkspaceView>, i: int, j: int)
    requires
        0 <= i < j < in_order::<Workspace>(reported).len(),
    ensures
        ({
            let listed = in_order::<Workspace>(reported);
            &&& listed.to_multiset() == reported.to_multiset()
            &&& listed[j].id >= 0 ==> 0 <= listed[i].id <= listed[j].id
            &&& listed[i].id < 0 ==> listed[j].id < 0 && (listed[i].name == listed[j].name
                || text_less(listed[i].name, listed[j].name))
        }),
{
    in_order_is_stable_sort::<Workspace>(reported);
    let listed = in_order::<Workspace>(reported);
    assert(!Workspace::precedes(listed[j], listed[i]));
    text_less_total(listed[i].name, listed[j].name);
}

/// The listed monitors are the reported ones, by number.
pub proof fn monitors_come_by_number(reported: Seq<MonitorView>, i: int, j: int)
    requires
        0 <= i < j < in_order::<Monitor>(reported).len(),
    ensures
        in_order::<Monitor>(reported).to_multiset() == reported.to_multiset(),
        in_order::<Monitor>(reported)[i].id <= in_order::<Monitor>(reported)[j].id,
{
    in_order_is_stable_sort::<Monitor>(reported);
    assert(!Monitor::precedes(
        in_order::<Monitor>(reported)[j],
        in_order::<Monitor>(reported)[i],
    ));
}

/// Below an ordinary directory, an ordinary signature has its socket at
/// `<directory>/hypr/<signature>/.socket.sock`.
pub proof fn socket_lies_below_hypr(base: Seq<char>, signature: Seq<char>)
    requires
        base.len() > 0,
        base.last() != '/',
        signature.len() > 0,
        signature[0] != '/',
        signature.last() != '/',
    ensures
        socket_below(base, signature) == base + "/hypr/"@ + signature + "/.socket.sock"@,
{
    reveal_strlit("hypr");
    reveal_strlit("/hypr/");
    reveal_strlit(".socket.sock");
    reveal_strlit("/.socket.sock");
    let hypr = joined(base, "hypr"@);
    assert(hypr =~= base.push('/') + "hypr"@);
    assert(hypr.last() == 'r');
    let instance = joined(hypr, signature);
    assert(instance =~= hypr.push('/') + signature);
    assert(instance.last() == signature.last());
    assert("/hypr/"@ =~= seq!['/'] + "hypr"@ + seq!['/']);
    assert("/.socket.sock"@ =~= seq!['/'] + ".socket.sock"@);
    assert(instance =~= base + "/hypr/"@ + signature);
}

/// Of the two places where the socket may lie, the runtime directory is
/// preferred: `/tmp` is taken only where nothing exists at the first place and
/// something exists at the second.
pub proof fn socket_falls_back_to_tmp(
    signature: Seq<char>,
    dir: Seq<char>,
    probes: Seq<Probe>,
)
    requires
        probes.len() == 2,
        probes[0].path@ == candidates(signature, Some(dir))[0],
        probes[1].path@ == candidates(signature, Some(dir))[1],
    ensures
        chosen(probes) == if !probes[0].exists && probes[1].exists {
            Some(socket_below("/tmp"@, signature))
        } else {
            Some(socket_below(dir, signature))
        },
{
    position_is_first(probes, does_exist());
}

/// The predicate of being no whitespace.
pub open spec fn is_no_whitespace() -> spec_fn(char) -> bool {
    |c: char| !is_whitespace(c)
}

/// A move succeeds exactly when the reply is an `o` or `O` followed at once by a
/// `k` or `K`, with nothing but whitespace before and behind: two characters of
/// the reply, and no more, are then no whitespace. The message names the workspace
/// and the monitor.
pub proof fn moves_succeed_on_ok_alone(
    workspace: WorkspaceView,
    monitor: MonitorView,
    reply: Seq<char>,
)
    ensures
        move_outcome(workspace, monitor, Ok(reply)) is Ok <==> exists|i: int, j: int|
            {
                &&& 0 <= i < j < reply.len() && j == i + 1
                &&& #[trigger] reply[i] == 'o' || reply[i] == 'O'
                &&& #[trigger] reply[j] == 'k' || reply[j] == 'K'
                &&& forall|p: int|
                    0 <= p < reply.len() && p != i && p != j ==> is_whitespace(#[trigger] reply[p])
            },
        move_outcome(workspace, monitor, Ok(reply)) is Ok ==> reply.filter(
            is_no_whitespace(),
        ).len() == 2,
        move_outcome(workspace, monitor, Ok(reply)) is Ok ==> move_outcome(
            workspace,
            monitor,
            Ok(reply),
        )->Ok_0 == "Moved workspace "@ + workspace.name + " to "@ + monitor.name,
{
    let (first, end) = core_of(reply);
    if move_outcome(workspace, monitor, Ok(reply)) is Ok {
        lemma_accepted_core(reply, first, end);
        assert(reply[first] == 'o' || reply[first] == 'O');
        assert(reply[end - 1] == 'k' || reply[end - 1] == 'K');
    }
    if exists|i: int, j: int|
        {
            &&& 0 <= i < j < reply.len() && j == i + 1
            &&& #[trigger] reply[i] == 'o' || reply[i] == 'O'
            &&& #[trigger] reply[j] == 'k' || reply[j] == 'K'
            &&& forall|p: int|
                0 <= p < reply.len() && p != i && p != j ==> is_whitespace(#[trigger] reply[p])
        } {
        let (i, j) = choose|i: int, j: int|
            {
                &&& 0 <= i < j < reply.len() && j == i + 1
                &&& #[trigger] reply[i] == 'o' || reply[i] == 'O'
                &&& #[trigger] reply[j] == 'k' || reply[j] == 'K'
                &&& forall|p: int|
                    0 <= p < reply.len() && p != i && p != j ==> is_whitespace(#[trigger] reply[p])
            };
        lemma_core_is(reply, first, end, i);
        lemma_ok_core(reply, i);
    }
}

proof fn lemma_accepted_core(reply: Seq<char>, first: int, end: int)
    requires
        same_ignoring_case(trimmed(reply), "ok"@),
        0 <= first <= end <= reply.len(),
        trimmed(reply) == reply.subrange(first, end),
        forall|p: int|
            0 <= p < first || end <= p < reply.len() ==> is_whitespace(#[trigger] reply[p]),
    ensures
        end == first + 2,
        reply[first] == 'o' || reply[first] == 'O',
        reply[first + 1] == 'k' || reply[first + 1] == 'K',
        reply.filter(is_no_whitespace()).len() == 2,
{
    reveal_strlit("ok");
    let ok = "ok"@;
    let core = trimmed(reply);
    assert(ok.len() == 2 && ok[0] == 'o' && ok[1] == 'k');
    agreement_up_to_case(core, ok);
    assert(core.len() == 2);
    let c = core[0];
    let d = core[1];
    assert(c == reply[first] && d == reply[first + 1]);
    assert(c == ok[0] || (c as int) == 79);
    assert(d == ok[1] || (d as int) == 75);
    let front = reply.take(first);
    let back = reply.skip(end);
    let keep = is_no_whitespace();
    assert(reply =~= front + (core + back));
    assert forall|p: int| 0 <= p < front.len() implies !keep(#[trigger] front[p]) by {
        assert(is_whitespace(reply[p]));
    }
    assert forall|p: int| 0 <= p < back.len() implies !keep(#[trigger] back[p]) by {
        assert(is_whitespace(reply[end + p]));
    }
    lemma_filter_none(front, keep);
    lemma_filter_none(back, keep);
    Seq::filter_distributes_over_add(front, core + back, keep);
    Seq::filter_distributes_over_add(core, back, keep);
    lemma_filter_two(c, d, keep);
    assert(core =~= seq![c, d]);
}

proof fn lemma_filter_two<A>(a: A, b: A, keep: spec_fn(A) -> bool)
    requires
        keep(a),
        keep(b),
    ensures
        seq![a, b].filter(keep).len() == 2,
{
    reveal(Seq::filter);
    let both = seq![a, b];
    let one = both.drop_last();
    assert(one =~= seq![a]);
    let none = one.drop_last();
    lemma_filter_none(none, keep);
    assert(one.filter(keep) == none.filter(keep).push(a));
    assert(both.filter(keep) == one.filter(keep).push(b));
}

proof fn lemma_core_is(reply: Seq<char>, first: int, end: int, i: int)
    requires
        0 <= first <= end <= reply.len(),
        forall|p: int|
            0 <= p < first || end <= p < reply.len() ==> is_whitespace(#[trigger] reply[p]),
        first < end ==> !is_whitespace(reply[first]) && !is_whitespace(reply[end - 1]),
        0 <= i < reply.len() - 1,
        !is_whitespace(reply[i]),
        !is_whitespace(reply[i + 1]),
        forall|p: int|
            0 <= p < reply.len() && p != i && p != i + 1 ==> is_whitespace(#[trigger] reply[p]),
    ensures
        first == i,
        end == i + 2,
{
}

proof fn lemma_ok_core(reply: Seq<char>, i: int)
    requires
        0 <= i < reply.len() - 1,
        trimmed(reply) == reply.subrange(i, i + 2),
        reply[i] == 'o' || reply[i] == 'O',
        reply[i + 1] == 'k' || reply[i + 1] == 'K',
    ensures
        same_ignoring_case(trimmed(reply), "ok"@),
{
    reveal_strlit("ok");
    let ok = "ok"@;
    let core = trimmed(reply);
    assert(core[0] == reply[i] && core[1] == reply[i + 1]);
    agreement_up_to_case(core, ok);
}

/// Every other reply fails the move, and is given as the reason without the
/// whitespace around it; a request that failed fails the move for its own reason.
pub proof fn other_replies_fail_the_move(
    workspace: WorkspaceView,
    monitor: MonitorView,
    reply: Seq<char>,
)
    ensures
        move_outcome(workspace, monitor, Ok(reply)) is Err ==> exists|i: int, j: int|
            {
                &&& 0 <= i <= j <= reply.len()
                &&& move_outcome(workspace, monitor, Ok(reply))->Err_0
                    == "Hyprland rejected move: "@ + #[trigger] reply.subrange(i, j)
                &&& forall|p: int|
                    0 <= p < i || j <= p < reply.len() ==> is_whitespace(#[trigger] reply[p])
                &&& i < j ==> !is_whitespace(reply[i]) && !is_whitespace(reply[j - 1])
            },
        move_outcome(workspace, monitor, Err(reply)) == Err::<Seq<char>, Seq<char>>(reply),
{
    let (i, j) = core_of(reply);
    assert(trimmed(reply) == reply.subrange(i, j));
}

/// A joined path is the component alone where that is absolute; else it starts
/// with the base and ends with the component, with one separator more between
/// them exactly where the base is not empty and does not end in one.
pub proof fn joined_paths_have_one_separator(base: Seq<char>, component: Seq<char>)
    ensures
        ({
            let path = joined(base, component);
            let absolute = component.len() > 0 && component[0] == '/';
            let apart = base.len() > 0 && base.last() != '/';
            &&& absolute ==> path == component
            &&& !absolute ==> path.take(base.len() as int) == base
            &&& !absolute ==> path.skip(path.len() - component.len()) == component
            &&& !absolute && apart ==> path.len() == base.len() + 1 + component.len() && path[
                base.len() as int] == '/'
            &&& !absolute && !apart ==> path.len() == base.len() + component.len()
        }),
{
    let path = joined(base, component);
    if !(component.len() > 0 && component[0] == '/') {
        assert(path.take(base.len() as int) =~= base);
        assert(path.skip(path.len() - component.len()) =~= component);
    }
}

/// An ordinary signature has its socket below the ordinary runtime directory or,
/// in the second place, below `/tmp`; without a runtime directory only there.
pub proof fn sockets_are_sought_in_order(dir: Seq<char>, signature: Seq<char>)
    requires
        dir.len() > 0,
        dir.last() != '/',
        signature.len() > 0,
        signature[0] != '/',
        signature.last() != '/',
    ensures
        candidates(signature, Some(dir)) == seq![
            dir + "/hypr/"@ + signature + "/.socket.sock"@,
            "/tmp/hypr/"@ + signature + "/.socket.sock"@,
        ],
        candidates(signature, None) == seq!["/tmp/hypr/"@ + signature + "/.socket.sock"@],
{
    reveal_strlit("/tmp");
    reveal_strlit("/hypr/");
    reveal_strlit("/tmp/hypr/");
    assert("/tmp/hypr/"@ =~= "/tmp"@ + "/hypr/"@);
    socket_lies_below_hypr(dir, signature);
    socket_lies_below_hypr("/tmp"@, signature);
}

/// The path to connect to is the first at which something exists; where nothing
/// exists at any, the first of all; and there is none only where none is given.
pub proof fn first_existing_path_is_chosen(probes: Seq<Probe>, k: int)
    ensures
        0 <= k < probes.len() && probes[k].exists && (forall|i: int|
            0 <= i < k ==> !(#[trigger] probes[i]).exists) ==> chosen(probes) == Some(
            probes[k].path@,
        ),
        probes.len() > 0 && (forall|i: int|
            0 <= i < probes.len() ==> !(#[trigger] probes[i]).exists) ==> chosen(probes) == Some(
            probes[0].path@,
        ),
        chosen(probes) is None <==> probes.len() == 0,
{
    let present = does_exist();
    if 0 <= k < probes.len() && probes[k].exists && forall|i: int|
        0 <= i < k ==> !(#[trigger] probes[i]).exists {
        assert forall|i: int| 0 <= i < k implies !present(#[trigger] probes[i]) by {}
        lemma_position_is(probes, present, k);
    }
    if forall|i: int| 0 <= i < probes.len() ==> !(#[trigger] probes[i]).exists {
        assert forall|i: int| 0 <= i < probes.len() implies !present(#[trigger] probes[i]) by {}
        lemma_position_none(probes, present);
    }
}

/// Names of ASCII letters and digits, `-`, `.`, `:` and `_` stand in a move command
/// as they are.
pub proof fn plain_names_stand_in_the_command(workspace: Seq<char>, monitor: Seq<char>)
    requires
        forall|i: int|
            0 <= i < workspace.len() ==> {
                let code = #[trigger] workspace[i] as int;
                48 <= code <= 57 || 65 <= code <= 90 || 97 <= code <= 122 || code == 45 || code
                    == 46 || code == 58 || code == 95
            },
        forall|i: int|
            0 <= i < monitor.len() ==> {
                let code = #[trigger] monitor[i] as int;
                48 <= code <= 57 || 65 <= code <= 90 || 97 <= code <= 122 || code == 45 || code
                    == 46 || code == 58 || code == 95
            },
    ensures
        move_command_text(workspace, monitor) == "dispatch moveworkspacetomonitor "@ + workspace
            + " "@ + monitor,
{
    reveal_strlit("dispatch");
    reveal_strlit("moveworkspacetomonitor");
    reveal_strlit(" ");
    reveal_strlit("dispatch moveworkspacetomonitor ");
    only_plain_arguments_stay(workspace);
    only_plain_arguments_stay(monitor);
    assert("dispatch moveworkspacetomonitor "@ =~= "dispatch"@ + " "@ + "moveworkspacetomonitor"@
        + " "@);
}

/// The predicate of having the number `id`.
pub open spec fn has_number(id: i32) -> spec_fn(WorkspaceView) -> bool {
    |workspace: WorkspaceView| workspace.id == id
}

/// The predicate of having no number of its own, and the name `name`.
pub open spec fn has_name_alone(name: Seq<char>) -> spec_fn(WorkspaceView) -> bool {
    |workspace: WorkspaceView| workspace.id < 0 && workspace.name == name
}

/// The predicate of being the monitor number `id`.
pub open spec fn is_monitor_number(id: i32) -> spec_fn(MonitorView) -> bool {
    |monitor: MonitorView| monitor.id == id
}

/// Workspaces of the same number, workspaces of the same name without a number of
/// their own, and monitors of the same number are listed in the order in which they
/// were reported.
pub proof fn equals_stay_as_reported(
    workspaces: Seq<WorkspaceView>,
    monitors: Seq<MonitorView>,
    id: i32,
    name: Seq<char>,
)
    ensures
        id >= 0 ==> in_order::<Workspace>(workspaces).filter(has_number(id))
            == workspaces.filter(has_number(id)),
        in_order::<Workspace>(workspaces).filter(has_name_alone(name)) == workspaces.filter(
            has_name_alone(name),
        ),
        in_order::<Monitor>(monitors).filter(is_monitor_number(id)) == monitors.filter(
            is_monitor_number(id),
        ),
{
    in_order_is_stable_sort::<Workspace>(workspaces);
    in_order_is_stable_sort::<Monitor>(monitors);
    let numbered = WorkspaceView { id, name, monitor: name };
    let named = WorkspaceView { id: -1i32, name, monitor: name };
    let monitor = MonitorView { id, name, focused: false };
    if id >= 0 {
        assert(tied_with::<Workspace>(numbered) =~= has_number(id));
    }
    assert forall|w: WorkspaceView| #[trigger]
        tied_with::<Workspace>(named)(w) == has_name_alone(name)(w) by {
        text_less_irreflexive(name);
        text_less_total(name, w.name);
    }
    assert(tied_with::<Workspace>(named) =~= has_name_alone(name));
    assert(tied_with::<Monitor>(monitor) =~= is_monitor_number(id));
    assert(in_order::<Workspace>(workspaces).filter(tied_with::<Workspace>(numbered))
        == workspaces.filter(tied_with::<Workspace>(numbered)));
    assert(in_order::<Workspace>(workspaces).filter(tied_with::<Workspace>(named))
        == workspaces.filter(tied_with::<Workspace>(named)));
    assert(in_order::<Monitor>(monitors).filter(tied_with::<Monitor>(monitor))
        == monitors.filter(tied_with::<Monitor>(monitor)));
}

/// The message of a failed connection names the path in full and ends with the
/// reason in full.
pub proof fn connect_failures_name_path_and_reason(path: Seq<char>, reason: Seq<char>)
    ensures
        ({
            let message = connect_failure_text(path, reason);
            let colon: int = 37int + path.len();
            &&& message.len() == 37 + path.len() + 2 + reason.len()
            &&& message.take(37) == "Failed to connect to Hyprland socket "@
            &&& message.subrange(37, colon) == path
            &&& message[colon] == ':' && message[colon + 1] == ' '
            &&& message.skip(colon + 2) == reason
        }),
{
    reveal_strlit("Failed to connect to Hyprland socket ");
    reveal_strlit(": ");
    let message = connect_failure_text(path, reason);
    let colon: int = 37int + path.len();
    assert("Failed to connect to Hyprland socket "@.len() == 37 && ": "@.len() == 2);
    assert(message.take(37) =~= "Failed to connect to Hyprland socket "@);
    assert(message.subrange(37, colon) =~= path);
    assert(message.skip(colon + 2) =~= reason);
}

/// Whatever the directory and the signature, the socket is a file `.socket.sock` in
/// the directory of the instance: that is the signature itself where it is an
/// absolute path, and else lies in `hypr` below the directory. Separators are put
/// where there are none, and nowhere else.
pub proof fn sockets_lie_in_the_instance_directory(base: Seq<char>, signature: Seq<char>)
    ensures
        ({
            let start = if base.len() == 0 || base.last() == '/' {
                base
            } else {
                base.push('/')
            };
            let instance = if signature.len() > 0 && signature[0] == '/' {
                signature
            } else {
                start + "hypr/"@ + signature
            };
            socket_below(base, signature) == if instance.last() == '/' {
                instance + ".socket.sock"@
            } else {
                instance + "/.socket.sock"@
            }
        }),
        candidates(signature, Some(base)).len() == 2,
        candidates(signature, Some(base))[0] == socket_below(base, signature),
        candidates(signature, Some(base))[1] == candidates(signature, None)[0],
        candidates(signature, None) == seq![socket_below(seq!['/', 't', 'm', 'p'], signature)],
{
    reveal_strlit("hypr");
    reveal_strlit("hypr/");
    reveal_strlit(".socket.sock");
    reveal_strlit("/.socket.sock");
    reveal_strlit("/tmp");
    assert("/tmp"@ =~= seq!['/', 't', 'm', 'p']);
    assert("hypr/"@ =~= "hypr"@.push('/'));
    assert("/.socket.sock"@ =~= seq!['/'] + ".socket.sock"@);
    let hypr = joined(base, "hypr"@);
    assert(hypr.last() == 'r');
    let start = if base.len() == 0 || base.last() == '/' {
        base
    } else {
        base.push('/')
    };
    assert(hypr =~= start + "hypr"@);
    let instance = if signature.len() > 0 && signature[0] == '/' {
        signature
    } else {
        start + "hypr/"@ + signature
    };
    assert(joined(hypr, signature) =~= instance);
    assert(instance.push('/') + ".socket.sock"@ =~= instance + "/.socket.sock"@);
}

/// A move command is the dispatcher call, then the two names as shell arguments,
/// each behind one blank.
pub proof fn move_commands_end_with_their_arguments(workspace: Seq<char>, monitor: Seq<char>)
    ensures
        ({
            let command = move_command_text(workspace, monitor);
            let place: int = 32int + escaped(workspace).len();
            &&& command.len() == place + 1 + escaped(monitor).len()
            &&& command.take(32) == "dispatch moveworkspacetomonitor "@
            &&& command.subrange(32, place) == escaped(workspace)
            &&& command[place] == ' '
            &&& command.skip(place + 1) == escaped(monitor)
        }),
{
    reveal_strlit("dispatch");
    reveal_strlit("moveworkspacetomonitor");
    reveal_strlit(" ");
    reveal_strlit("dispatch moveworkspacetomonitor ");
    let command = move_command_text(workspace, monitor);
    let place: int = 32int + escaped(workspace).len();
    assert("dispatch"@.len() == 8 && "moveworkspacetomonitor"@.len() == 22 && " "@.len() == 1);
    assert(command.take(32) =~= "dispatch moveworkspacetomonitor "@);
    assert(command.subrange(32, place) =~= escaped(workspace));
    assert(command.skip(place + 1) =~= escaped(monitor));
}

/// A result says what its text says, as a success or as a failure.
pub proof fn results_keep_their_text(text: String)
    ensures
        result_of(Ok(text)) == Ok::<Seq<char>, Seq<char>>(text@),
        result_of(Err(text)) == Err::<Seq<char>, Seq<char>>(text@),
{
}

} // verus!
