//! Desktop notifications: which messages pass the configured level, and the command
//! that shows one.
use vstd::prelude::*;
use crate::config::{strings_view, NotifyLevel};
use crate::text::join;

verus! {

/// Something that reports errors, warnings and information to the user.
pub trait Notifier {
    fn notify_error(&self, title: &str, message: &str);

    fn notify_warning(&self, title: &str, message: &str);

    fn notify_info(&self, title: &str, message: &str);
}

/// A program to start, detached, with its arguments.
#[derive(Debug, PartialEq, Eq)]
pub struct NotifyCommand {
    pub program: String,
    pub args: Vec<String>,
}

/// Notifications through `dms ipc toast` when the `dms` shell is installed, else
/// through `notify-send`, for messages at or above the configured level.
#[derive(Debug, PartialEq, Eq)]
pub struct RealNotifier {
    pub level: NotifyLevel,
    /// Whether the `dms` program is on the `PATH`.
    pub has_dms: bool,
}

/// The command for one notification: `dms ipc toast <dms_level> "niri-tools: <title>"
/// <message> "" ""` when `dms` is there, else `notify-send -a niri-tools -u
/// <urgency> [-t <timeout>] <title> <message>`.
pub open spec fn notification_command(
    has_dms: bool,
    title: Seq<char>,
    message: Seq<char>,
    urgency: Seq<char>,
    timeout: Option<Seq<char>>,
    dms_level: Seq<char>,
) -> (Seq<char>, Seq<Seq<char>>) {
    if has_dms {
        (
            "dms"@,
            seq!["ipc"@, "toast"@, dms_level, "niri-tools: "@ + title, message, ""@, ""@],
        )
    } else {
        (
            "notify-send"@,
            seq!["-a"@, "niri-tools"@, "-u"@, urgency] + match timeout {
                Some(t) => seq!["-t"@, t],
                None => Seq::empty(),
            } + seq![title, message],
        )
    }
}

fn push_str(v: &mut Vec<String>, s: &str)
    ensures
        strings_view(final(v)@) == strings_view(old(v)@).push(s@),
{
    v.push(s.to_owned());
    assert(strings_view(v@) =~= strings_view(old(v)@).push(s@));
}

impl RealNotifier {
    /// A notifier for the given level; the caller finds out whether `dms` is
    /// installed.
    pub fn new(level: NotifyLevel, has_dms: bool) -> (res: Self)
        ensures
            res.level == level,
            res.has_dms == has_dms,
    {
        RealNotifier { level, has_dms }
    }

    fn command(
        &self,
        title: &str,
        message: &str,
        urgency: &str,
        timeout: Option<&str>,
        dms_level: &str,
    ) -> (res: NotifyCommand)
        ensures
            (res.program@, strings_view(res.args@)) == notification_command(
                self.has_dms,
                title@,
                message@,
                urgency@,
                match timeout {
                    Some(t) => Some(t@),
                    None => None,
                },
                dms_level@,
            ),
    {
        let mut args: Vec<String> = Vec::new();
        if self.has_dms {
            push_str(&mut args, "ipc");
            push_str(&mut args, "toast");
            push_str(&mut args, dms_level);
            let t = join("niri-tools: ", title);
            push_str(&mut args, t.as_str());
            push_str(&mut args, message);
            push_str(&mut args, "");
            push_str(&mut args, "");
            proof {
                reveal_strlit("");
            }
            assert(strings_view(args@) =~= seq![
                "ipc"@,
                "toast"@,
                dms_level@,
                "niri-tools: "@ + title@,
                message@,
                ""@,
                ""@,
            ]);
            NotifyCommand { program: "dms".to_owned(), args }
        } else {
            push_str(&mut args, "-a");
            push_str(&mut args, "niri-tools");
            push_str(&mut args, "-u");
            push_str(&mut args, urgency);
            let ghost head = strings_view(args@);
            if let Some(t) = timeout {
                push_str(&mut args, "-t");
                push_str(&mut args, t);
            }
            let ghost mid = strings_view(args@);
            push_str(&mut args, title);
            push_str(&mut args, message);
            assert(strings_view(args@) =~= seq!["-a"@, "niri-tools"@, "-u"@, urgency@] + match timeout {
                Some(t) => seq!["-t"@, t@],
                None => Seq::<Seq<char>>::empty(),
            } + seq![title@, message@]);
            NotifyCommand { program: "notify-send".to_owned(), args }
        }
    }

    /// The command that shows an error, when the level lets errors through: critical
    /// urgency, no timeout, `dms` level `errorWith`.
    pub fn notify_error(&self, title: &str, message: &str) -> (res: Option<NotifyCommand>)
        ensures
            match res {
                Some(c) => self.level.rank_spec() >= NotifyLevel::Error.rank_spec() && (
                c.program@,
                strings_view(c.args@),
                ) == notification_command(
                    self.has_dms,
                    title@,
                    message@,
                    "critical"@,
                    None,
                    "errorWith"@,
                ),
                None => self.level.rank_spec() < NotifyLevel::Error.rank_spec(),
            },
    {
        if self.level.admits(NotifyLevel::Error) {
            Some(self.command(title, message, "critical", None, "errorWith"))
        } else {
            None
        }
    }

    /// The command that shows a warning, when the level lets warnings through: normal
    /// urgency, 5 s timeout, `dms` level `warnWith`.
    pub fn notify_warning(&self, title: &str, message: &str) -> (res: Option<NotifyCommand>)
        ensures
            match res {
                Some(c) => self.level.rank_spec() >= NotifyLevel::Warning.rank_spec() && (
                c.program@,
                strings_view(c.args@),
                ) == notification_command(
                    self.has_dms,
                    title@,
                    message@,
                    "normal"@,
                    Some("5000"@),
                    "warnWith"@,
                ),
                None => self.level.rank_spec() < NotifyLevel::Warning.rank_spec(),
            },
    {
        if self.level.admits(NotifyLevel::Warning) {
            Some(self.command(title, message, "normal", Some("5000"), "warnWith"))
        } else {
            None
        }
    }

    /// The command that shows information, when the level lets everything through:
    /// low urgency, 2 s timeout, `dms` level `infoWith`.
    pub fn notify_info(&self, title: &str, message: &str) -> (res: Option<NotifyCommand>)
        ensures
            match res {
                Some(c) => self.level.rank_spec() >= NotifyLevel::All.rank_spec() && (
                c.program@,
                strings_view(c.args@),
                ) == notification_command(
                    self.has_dms,
                    title@,
                    message@,
                    "low"@,
                    Some("2000"@),
                    "infoWith"@,
                ),
                None => self.level.rank_spec() < NotifyLevel::All.rank_spec(),
            },
    {
        if self.level.admits(NotifyLevel::All) {
            Some(self.command(title, message, "low", Some("2000"), "infoWith"))
        } else {
            None
        }
    }
}

/// A level lets through exactly the messages at or above it: the error threshold is
/// the lowest, then warnings, then information; `Off` lets nothing through.
pub proof fn law_levels_nest(level: NotifyLevel)
    ensures
        level.rank_spec() >= NotifyLevel::All.rank_spec() ==> level.rank_spec()
            >= NotifyLevel::Warning.rank_spec(),
        level.rank_spec() >= NotifyLevel::Warning.rank_spec() ==> level.rank_spec()
            >= NotifyLevel::Error.rank_spec(),
        level == NotifyLevel::Off <==> level.rank_spec() < NotifyLevel::Error.rank_spec(),
{
}

} // verus!
