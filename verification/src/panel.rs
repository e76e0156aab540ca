//! The applet panel as a state machine: the page shown, the receivers
//! found, the file chosen, the log lines of sending and receiving, and the
//! settings being edited. Each message updates the state and says what the
//! surrounding program must do (start or stop discovery or the server, ask
//! for a file, send one); the program reports back what came of it.

use vstd::prelude::*;
use vstd::string::StringExecFns;
use crate::client::Receiver;
use crate::config::AirDropConfig;
use crate::server::ServerEvent;
use crate::text::{dec_chars, push_decimal};

verus! {

/// Which section of the popup is shown.
#[derive(Clone, Copy, PartialEq, Eq, Debug, Structural)]
pub enum Page {
    Send,
    Receive,
}

impl Default for Page {
    fn default() -> (p: Self)
        ensures
            p == Page::Send,
    {
        Page::Send
    }
}

impl Page {
    /// The pages, in navigation order.
    pub const ALL: [Page; 2] = [Page::Send, Page::Receive];

    /// The page's title.
    pub fn label(self) -> (s: &'static str)
        ensures
            s@ == (match self {
                Page::Send => "Send"@,
                Page::Receive => "Receive"@,
            }),
    {
        proof {
            reveal_strlit("Send");
            reveal_strlit("Receive");
        }
        match self {
            Page::Send => "Send",
            Page::Receive => "Receive",
        }
    }
}

/// What the user did, or the ticking clock.
pub enum PanelMessage {
    PopupClosed,
    Page(Page),
    SetSelectedReceiver(String),
    PickFile,
    SendFile,
    ToggleReceive,
    ApplySettings,
    SetComputerName(String),
    SetModel(String),
    SetInterface(String),
    ScrollSend,
}

/// What the surrounding program must do.
pub enum PanelAction {
    StartDiscovery,
    StopDiscovery,
    StartServer,
    StopServer,
    /// Let the user choose a file.
    PickFile,
    /// Offer `file` to `receiver`.
    Send { receiver: Receiver, file: String },
}

/// The panel's state.
pub struct PanelState {
    pub page: Page,
    pub config: AirDropConfig,
    pub discovering: bool,
    pub receivers: Vec<Receiver>,
    pub selected_receiver: Option<String>,
    pub selected_file: Option<String>,
    pub send_messages: Vec<String>,
    pub server_running: bool,
    pub receive_messages: Vec<String>,
    pub settings_name: String,
    pub settings_model: String,
    pub settings_interface: String,
}

/// The text of a log line.
pub open spec fn lines_view(v: Seq<String>) -> Seq<Seq<char>> {
    v.map_values(|s: String| s@)
}

/// Index of the first receiver with id `id`.
pub open spec fn find_receiver(rs: Seq<Receiver>, id: Seq<char>) -> Option<int> {
    if exists|i: int| 0 <= i < rs.len() && #[trigger] rs[i].id@ == id {
        Some(choose|i: int| 0 <= i < rs.len() && #[trigger] rs[i].id@ == id && forall|j: int| 0 <= j < i ==> #[trigger] rs[j].id@ != id)
    } else {
        None
    }
}

pub(crate) fn find_receiver_exec(rs: &Vec<Receiver>, id: &String) -> (r: Option<usize>)
    ensures
        r matches Some(i) ==> i < rs@.len() && rs@[i as int].id@ == id@,
        match r {
            Some(i) => find_receiver(rs@, id@) == Some(i as int),
            None => find_receiver(rs@, id@) is None,
        },
{
    let mut i: usize = 0;
    while i < rs.len()
        invariant
            i <= rs@.len(),
            forall|j: int| 0 <= j < i ==> #[trigger] rs@[j].id@ != id@,
        decreases rs@.len() - i,
    {
        if rs[i].id == *id {
            proof {
                let k = choose|k: int| 0 <= k < rs@.len() && #[trigger] rs@[k].id@ == id@ && forall|j: int| 0 <= j < k ==> #[trigger] rs@[j].id@ != id@;
                assert(0 <= i < rs@.len() && rs@[i as int].id@ == id@);
                assert(k == i as int) by {
                    if k < i {
                        assert(rs@[k].id@ != id@);
                    } else if i < k {
                        assert(rs@[i as int].id@ != id@);
                    }
                }
            }
            return Some(i);
        }
        i += 1;
    }
    None
}

/// The receivers after the browser found `r`: it replaces the first one
/// with its id, or joins at the end.
pub open spec fn receivers_found(rs: Seq<Receiver>, r: Receiver) -> Seq<Receiver> {
    match find_receiver(rs, r.id@) {
        Some(i) => rs.update(i, r),
        None => rs.push(r),
    }
}

/// The receivers after the browser lost the one(s) with id `id`.
pub open spec fn receivers_removed(rs: Seq<Receiver>, id: Seq<char>) -> Seq<Receiver> {
    rs.filter(|r: Receiver| r.id@ != id)
}

/// No two receivers of `rs` share an id.
pub open spec fn unique_ids(rs: Seq<Receiver>) -> bool {
    forall|a: int, b: int| 0 <= a < rs.len() && 0 <= b < rs.len() && a != b ==> (#[trigger] rs[a]).id@ != (#[trigger] rs[b]).id@
}

/// A receiver found again replaces its entry: the list never holds two
/// receivers with one id.
pub proof fn lemma_found_keeps_ids_unique(rs: Seq<Receiver>, r: Receiver)
    requires
        unique_ids(rs),
    ensures
        unique_ids(receivers_found(rs, r)),
{
    let t = receivers_found(rs, r);
    match find_receiver(rs, r.id@) {
        Some(i) => {
            assert(0 <= i < rs.len() && rs[i].id@ == r.id@);
            assert forall|a: int, b: int| 0 <= a < t.len() && 0 <= b < t.len() && a != b implies (#[trigger] t[a]).id@ != (
            #[trigger] t[b]).id@ by {
                assert(t[a].id@ == rs[a].id@);
                assert(t[b].id@ == rs[b].id@);
            }
        },
        None => {
            assert forall|a: int, b: int| 0 <= a < t.len() && 0 <= b < t.len() && a != b implies (#[trigger] t[a]).id@ != (
            #[trigger] t[b]).id@ by {
                if a < rs.len() && b < rs.len() {
                    assert(t[a] == rs[a] && t[b] == rs[b]);
                } else if a < rs.len() {
                    assert(t[a] == rs[a]);
                    assert(rs[a].id@ != r.id@);
                } else {
                    assert(t[b] == rs[b]);
                    assert(rs[b].id@ != r.id@);
                }
            }
        },
    }
}

/// After the browser loses id `id`, no receiver with that id is listed.
pub proof fn lemma_removed_is_gone(rs: Seq<Receiver>, id: Seq<char>)
    ensures
        forall|k: int| 0 <= k < receivers_removed(rs, id).len() ==> (#[trigger] receivers_removed(rs, id)[k]).id@ != id,
{
    rs.filter_lemma(|r: Receiver| r.id@ != id);
}

/// How a character of a string is written between the quotes of its
/// debug text: a quote, a backslash, a tab, a carriage return, a line feed
/// and a zero behind a backslash, any other character as it is.
pub open spec fn debug_char(c: char) -> Seq<char> {
    if c == '"' {
        seq!['\\', '"']
    } else if c == '\\' {
        seq!['\\', '\\']
    } else if c == '\t' {
        seq!['\\', 't']
    } else if c == '\r' {
        seq!['\\', 'r']
    } else if c == '\n' {
        seq!['\\', 'n']
    } else if c == '\0' {
        seq!['\\', '0']
    } else {
        seq![c]
    }
}

/// The characters of `s` as written between the quotes of its debug text.
pub open spec fn debug_escaped(s: Seq<char>) -> Seq<char>
    decreases s.len(),
{
    if s.len() == 0 {
        Seq::empty()
    } else {
        debug_escaped(s.drop_last()) + debug_char(s.last())
    }
}

/// The log line of a server event: the events with a message of their own
/// show it; the others are shown as "Event: " and their debug text.
pub open spec fn spec_server_line(e: ServerEvent) -> Seq<char> {
    match e {
        ServerEvent::Ask { sender_name, file_name, .. } => "Ask: "@ + sender_name@ + " wants to send "@ + file_name@,
        ServerEvent::Accepted => "Accepted."@,
        ServerEvent::Received { file_name } => "Saved: "@ + file_name@,
        ServerEvent::Error(e) => "Error: "@ + e@,
        ServerEvent::Start => "Event: Start"@,
        ServerEvent::ReceiveProgress { file_name, bytes, total_bytes } => "Event: ReceiveProgress { file_name: \""@
            + debug_escaped(file_name@) + "\", bytes: "@ + dec_chars(bytes as nat) + ", total_bytes: "@
            + dec_chars(total_bytes as nat) + " }"@,
    }
}

/// Append the characters of `t` as written between the quotes of its debug
/// text.
fn push_debug_escaped(s: &mut String, t: &str)
    ensures
        final(s)@ == old(s)@ + debug_escaped(t@),
{
    let n = t.unicode_len();
    let mut i: usize = 0;
    assert(t@.take(0) =~= Seq::<char>::empty());
    while i < n
        invariant
            i <= n,
            n == t@.len(),
            s@ == old(s)@ + debug_escaped(t@.take(i as int)),
        decreases n - i,
    {
        let c = t.get_char(i);
        let piece: &str = if c == '"' {
            "\\\""
        } else if c == '\\' {
            "\\\\"
        } else if c == '\t' {
            "\\t"
        } else if c == '\r' {
            "\\r"
        } else if c == '\n' {
            "\\n"
        } else if c == '\0' {
            "\\0"
        } else {
            t.substring_char(i, i + 1)
        };
        proof {
            reveal_strlit("\\\"");
            reveal_strlit("\\\\");
            reveal_strlit("\\t");
            reveal_strlit("\\r");
            reveal_strlit("\\n");
            reveal_strlit("\\0");
            let ii = i as int;
            assert(t@.subrange(ii, ii + 1) =~= seq![c]);
            assert(piece@ =~= debug_char(c));
            assert(t@.take(ii + 1).drop_last() =~= t@.take(ii));
            assert(t@.take(ii + 1).last() == c);
            assert(debug_escaped(t@.take(ii + 1)) == debug_escaped(t@.take(ii)) + debug_char(c));
        }
        s.append(piece);
        assert(s@ =~= old(s)@ + debug_escaped(t@.take(i + 1)));
        i += 1;
    }
    assert(t@.take(n as int) =~= t@);
}

/// The log line of a server event.
pub fn server_event_line(e: &ServerEvent) -> (s: String)
    ensures
        s@ == spec_server_line(*e),
{
    proof {
        reveal_strlit("Ask: ");
        reveal_strlit(" wants to send ");
        reveal_strlit("Accepted.");
        reveal_strlit("Saved: ");
        reveal_strlit("Error: ");
        reveal_strlit("Event: Start");
        reveal_strlit("Event: ReceiveProgress { file_name: \"");
        reveal_strlit("\", bytes: ");
        reveal_strlit(", total_bytes: ");
        reveal_strlit(" }");
    }
    match e {
        ServerEvent::Ask { sender_name, file_name, .. } => {
            let mut s = String::from_str("Ask: ");
            s.append(sender_name.as_str());
            s.append(" wants to send ");
            s.append(file_name.as_str());
            s
        },
        ServerEvent::Accepted => String::from_str("Accepted."),
        ServerEvent::Received { file_name } => {
            let mut s = String::from_str("Saved: ");
            s.append(file_name.as_str());
            s
        },
        ServerEvent::Error(err) => {
            let mut s = String::from_str("Error: ");
            s.append(err.as_str());
            s
        },
        ServerEvent::Start => String::from_str("Event: Start"),
        ServerEvent::ReceiveProgress { file_name, bytes, total_bytes } => {
            let mut s = String::from_str("Event: ReceiveProgress { file_name: \"");
            push_debug_escaped(&mut s, file_name.as_str());
            s.append("\", bytes: ");
            push_decimal(&mut s, *bytes);
            s.append(", total_bytes: ");
            push_decimal(&mut s, *total_bytes);
            s.append(" }");
            s
        },
    }
}

fn text_line(prefix: &str, rest: &str) -> (s: String)
    ensures
        s@ == prefix@ + rest@,
{
    let mut s = String::from_str(prefix);
    s.append(rest);
    s
}

impl PanelState {
    /// The panel at start: send page, nothing found or chosen, nothing
    /// running, settings as configured.
    pub fn new(config: AirDropConfig) -> (p: Self)
        ensures
            p.page == Page::Send,
            p.config == config,
            !p.discovering,
            p.receivers@.len() == 0,
            p.selected_receiver is None,
            p.selected_file is None,
            p.send_messages@.len() == 0,
            !p.server_running,
            p.receive_messages@.len() == 0,
            p.settings_name@ == config.computer_name@,
            p.settings_model@ == config.computer_model@,
            p.settings_interface@ == config.interface@,
    {
        let settings_name = config.computer_name.clone();
        let settings_model = config.computer_model.clone();
        let settings_interface = config.interface.clone();
        PanelState {
            page: Page::Send,
            config,
            discovering: false,
            receivers: Vec::new(),
            selected_receiver: None,
            selected_file: None,
            send_messages: Vec::new(),
            server_running: false,
            receive_messages: Vec::new(),
            settings_name,
            settings_model,
            settings_interface,
        }
    }

    /// Handle a message: update the state and return what the program must
    /// do, in order.
    ///
    /// - closing the popup stops discovery;
    /// - choosing a page shows it, and starts discovery on the send page when
    ///   none runs;
    /// - selecting a receiver remembers its id; picking a file asks for one;
    /// - send offers the chosen file to the chosen receiver, or logs why not;
    /// - toggling receive stops a running server (logging it) or starts one;
    /// - apply copies the edited settings into the configuration; editing a
    ///   setting changes it; rescan stops and starts discovery.
    pub fn update(&mut self, message: PanelMessage) -> (actions: Vec<PanelAction>)
        ensures
            match message {
                PanelMessage::PopupClosed => {
                    &&& actions@.len() == 1 && actions@[0] is StopDiscovery
                    &&& *final(self) == (PanelState { discovering: false, ..*old(self) })
                },
                PanelMessage::Page(p) => {
                    &&& *final(self) == (PanelState { page: p, ..*old(self) })
                    &&& if p == Page::Send && !old(self).discovering {
                        actions@.len() == 1 && actions@[0] is StartDiscovery
                    } else {
                        actions@.len() == 0
                    }
                },
                PanelMessage::SetSelectedReceiver(id) => {
                    &&& actions@.len() == 0
                    &&& *final(self) == (PanelState { selected_receiver: Some(id), ..*old(self) })
                },
                PanelMessage::PickFile => actions@.len() == 1 && actions@[0] is PickFile && *final(self) == *old(self),
                PanelMessage::SendFile => *final(self) == (PanelState { send_messages: final(self).send_messages, ..*old(self) })
                    && match (old(self).selected_receiver, old(self).selected_file) {
                    (None, _) => actions@.len() == 0 && lines_view(final(self).send_messages@) == lines_view(
                        old(self).send_messages@,
                    ).push("No receiver selected"@),
                    (Some(_), None) => actions@.len() == 0 && lines_view(final(self).send_messages@) == lines_view(
                        old(self).send_messages@,
                    ).push("No file selected"@),
                    (Some(id), Some(f)) => match find_receiver(old(self).receivers@, id@) {
                        None => actions@.len() == 0 && lines_view(final(self).send_messages@) == lines_view(
                            old(self).send_messages@,
                        ).push("Receiver no longer available"@),
                        Some(i) => {
                            &&& lines_view(final(self).send_messages@) == lines_view(old(self).send_messages@).push(
                                "Sending "@ + f@ + " ..."@,
                            )
                            &&& actions@.len() == 1
                            &&& actions@[0] matches PanelAction::Send { receiver, file } && receiver.id@
                                == old(self).receivers@[i].id@ && file@ == f@
                        },
                    },
                },
                PanelMessage::ToggleReceive => if old(self).server_running {
                    &&& actions@.len() == 1 && actions@[0] is StopServer
                    &&& *final(self) == (PanelState {
                        server_running: false,
                        receive_messages: final(self).receive_messages,
                        ..*old(self)
                    })
                    &&& lines_view(final(self).receive_messages@) == lines_view(old(self).receive_messages@).push(
                        "Stopped receiving."@,
                    )
                } else {
                    actions@.len() == 1 && actions@[0] is StartServer && *final(self) == *old(self)
                },
                PanelMessage::ApplySettings => {
                    &&& actions@.len() == 0
                    &&& *final(self) == (PanelState {
                        config: AirDropConfig {
                            computer_name: old(self).settings_name,
                            computer_model: old(self).settings_model,
                            interface: old(self).settings_interface,
                            ..old(self).config
                        },
                        ..*old(self)
                    })
                },
                PanelMessage::SetComputerName(v) => actions@.len() == 0 && *final(self) == (PanelState {
                    settings_name: v,
                    ..*old(self)
                }),
                PanelMessage::SetModel(v) => actions@.len() == 0 && *final(self) == (PanelState {
                    settings_model: v,
                    ..*old(self)
                }),
                PanelMessage::SetInterface(v) => actions@.len() == 0 && *final(self) == (PanelState {
                    settings_interface: v,
                    ..*old(self)
                }),
                PanelMessage::ScrollSend => {
                    &&& actions@.len() == 2 && actions@[0] is StopDiscovery && actions@[1] is StartDiscovery
                    &&& *final(self) == (PanelState { discovering: false, ..*old(self) })
                },
            },
    {
        let mut actions: Vec<PanelAction> = Vec::new();
        proof {
            reveal_strlit("No receiver selected");
            reveal_strlit("No file selected");
            reveal_strlit("Receiver no longer available");
            reveal_strlit("Sending ");
            reveal_strlit(" ...");
            reveal_strlit("Stopped receiving.");
        }
        match message {
            PanelMessage::PopupClosed => {
                self.discovering = false;
                actions.push(PanelAction::StopDiscovery);
            },
            PanelMessage::Page(page) => {
                self.page = page;
                if page == Page::Send && !self.discovering {
                    actions.push(PanelAction::StartDiscovery);
                }
            },
            PanelMessage::SetSelectedReceiver(id) => {
                self.selected_receiver = Some(id);
            },
            PanelMessage::PickFile => {
                actions.push(PanelAction::PickFile);
            },
            PanelMessage::SendFile => {
                let ghost old_msgs = self.send_messages@;
                match &self.selected_receiver {
                    None => {
                        self.send_messages.push(String::from_str("No receiver selected"));
                        assert(lines_view(self.send_messages@) =~= lines_view(old_msgs).push("No receiver selected"@));
                    },
                    Some(id) => match &self.selected_file {
                        None => {
                            self.send_messages.push(String::from_str("No file selected"));
                            assert(lines_view(self.send_messages@) =~= lines_view(old_msgs).push("No file selected"@));
                        },
                        Some(file) => match find_receiver_exec(&self.receivers, id) {
                            None => {
                                self.send_messages.push(String::from_str("Receiver no longer available"));
                                assert(lines_view(self.send_messages@) =~= lines_view(old_msgs).push(
                                    "Receiver no longer available"@,
                                ));
                            },
                            Some(i) => {
                                let receiver = self.receivers[i].clone();
                                let mut line = String::from_str("Sending ");
                                line.append(file.as_str());
                                line.append(" ...");
                                let file = file.clone();
                                self.send_messages.push(line);
                                assert(lines_view(self.send_messages@) =~= lines_view(old_msgs).push(
                                    "Sending "@ + file@ + " ..."@,
                                ));
                                actions.push(PanelAction::Send { receiver, file });
                            },
                        },
                    },
                }
            },
            PanelMessage::ToggleReceive => {
                if self.server_running {
                    let ghost old_msgs = self.receive_messages@;
                    self.server_running = false;
                    self.receive_messages.push(String::from_str("Stopped receiving."));
                    assert(lines_view(self.receive_messages@) =~= lines_view(old_msgs).push("Stopped receiving."@));
                    actions.push(PanelAction::StopServer);
                } else {
                    actions.push(PanelAction::StartServer);
                }
            },
            PanelMessage::ApplySettings => {
                self.config.computer_name = self.settings_name.clone();
                self.config.computer_model = self.settings_model.clone();
                self.config.interface = self.settings_interface.clone();
            },
            PanelMessage::SetComputerName(v) => {
                self.settings_name = v;
            },
            PanelMessage::SetModel(v) => {
                self.settings_model = v;
            },
            PanelMessage::SetInterface(v) => {
                self.settings_interface = v;
            },
            PanelMessage::ScrollSend => {
                self.discovering = false;
                actions.push(PanelAction::StopDiscovery);
                actions.push(PanelAction::StartDiscovery);
            },
        }
        actions
    }

    /// Discovery started: the receiver list starts over.
    pub fn discovery_started(&mut self)
        ensures
            final(self).receivers@.len() == 0,
            *final(self) == (PanelState { discovering: true, receivers: final(self).receivers, ..*old(self) }),
    {
        self.discovering = true;
        self.receivers = Vec::new();
    }

    /// Discovery could not start: log why.
    pub fn discovery_failed(&mut self, error: &str)
        ensures
            lines_view(final(self).send_messages@) == lines_view(old(self).send_messages@).push("Discovery error: "@ + error@),
            *final(self) == (PanelState { send_messages: final(self).send_messages, ..*old(self) }),
    {
        proof {
            reveal_strlit("Discovery error: ");
        }
        let ghost old_msgs = self.send_messages@;
        self.send_messages.push(text_line("Discovery error: ", error));
        assert(lines_view(self.send_messages@) =~= lines_view(old_msgs).push("Discovery error: "@ + error@));
    }

    /// The server listens on `port`.
    pub fn server_started(&mut self, port: u16)
        ensures
            lines_view(final(self).receive_messages@) == lines_view(old(self).receive_messages@).push(
                "Listening on port "@ + dec_chars(port as nat) + "..."@,
            ),
            *final(self) == (PanelState {
                server_running: true,
                receive_messages: final(self).receive_messages,
                ..*old(self)
            }),
    {
        proof {
            reveal_strlit("Listening on port ");
            reveal_strlit("...");
        }
        let ghost old_msgs = self.receive_messages@;
        let mut line = String::from_str("Listening on port ");
        push_decimal(&mut line, port as u64);
        line.append("...");
        self.server_running = true;
        self.receive_messages.push(line);
        assert(lines_view(self.receive_messages@) =~= lines_view(old_msgs).push(
            "Listening on port "@ + dec_chars(port as nat) + "..."@,
        ));
    }

    /// The server could not start: log why.
    pub fn server_failed(&mut self, error: &str)
        ensures
            lines_view(final(self).receive_messages@) == lines_view(old(self).receive_messages@).push("Failed to start: "@ + error@),
            *final(self) == (PanelState { receive_messages: final(self).receive_messages, ..*old(self) }),
    {
        proof {
            reveal_strlit("Failed to start: ");
        }
        let ghost old_msgs = self.receive_messages@;
        self.receive_messages.push(text_line("Failed to start: ", error));
        assert(lines_view(self.receive_messages@) =~= lines_view(old_msgs).push("Failed to start: "@ + error@));
    }

    /// A line from the sending worker.
    pub fn on_send_line(&mut self, line: String)
        ensures
            final(self).send_messages@ == old(self).send_messages@.push(line),
            *final(self) == (PanelState { send_messages: final(self).send_messages, ..*old(self) }),
    {
        self.send_messages.push(line);
    }

    /// An event from the browser: a found receiver replaces the one with its
    /// id or joins the list; a lost one leaves it.
    pub fn on_browser_found(&mut self, r: Receiver)
        ensures
            final(self).receivers@ == receivers_found(old(self).receivers@, r),
            *final(self) == (PanelState { receivers: final(self).receivers, ..*old(self) }),
    {
        match find_receiver_exec(&self.receivers, &r.id) {
            Some(i) => {
                self.receivers.set(i, r);
            },
            None => {
                self.receivers.push(r);
            },
        }
    }

    /// The browser lost the receiver(s) with id `id`.
    pub fn on_browser_removed(&mut self, id: &String)
        ensures
            final(self).receivers@ == receivers_removed(old(self).receivers@, id@),
            *final(self) == (PanelState { receivers: final(self).receivers, ..*old(self) }),
    {
        remove_receivers(&mut self.receivers, id);
    }

    /// An event from the server, logged.
    pub fn on_server_event(&mut self, e: &ServerEvent)
        ensures
            final(self).receive_messages@.len() == old(self).receive_messages@.len() + 1,
            final(self).receive_messages@.take(old(self).receive_messages@.len() as int) == old(self).receive_messages@,
            final(self).receive_messages@.last()@ == spec_server_line(*e),
            *final(self) == (PanelState { receive_messages: final(self).receive_messages, ..*old(self) }),
    {
        let line = server_event_line(e);
        self.receive_messages.push(line);
        assert(self.receive_messages@.take(old(self).receive_messages@.len() as int) =~= old(self).receive_messages@);
    }
}

/// Take the receivers with id `id` out of `rs`.
pub(crate) fn remove_receivers(rs: &mut Vec<Receiver>, id: &String)
    ensures
        final(rs)@ == receivers_removed(old(rs)@, id@),
{
    let ghost orig = rs@;
    let ghost keep = |r: Receiver| r.id@ != id@;
    let mut rest: Vec<Receiver> = Vec::new();
    std::mem::swap(&mut rest, rs);
    let mut kept: Vec<Receiver> = Vec::new();
    let ghost mut k: int = 0;
    assert(orig.take(0) =~= Seq::<Receiver>::empty());
    while rest.len() > 0
        invariant
            0 <= k <= orig.len(),
            keep == (|r: Receiver| r.id@ != id@),
            rest@ == orig.skip(k),
            kept@ == orig.take(k).filter(keep),
        decreases rest@.len(),
    {
        let r = rest.remove(0);
        proof {
            lemma_filter_take_step(orig, keep, k);
            assert(orig.skip(k + 1) =~= orig.skip(k).drop_first());
        }
        if !(r.id == *id) {
            kept.push(r);
        }
        proof {
            k = k + 1;
        }
    }
    assert(orig.take(orig.len() as int) =~= orig);
    *rs = kept;
}

proof fn lemma_filter_take_step<T>(s: Seq<T>, f: spec_fn(T) -> bool, k: int)
    requires
        0 <= k < s.len(),
    ensures
        s.take(k + 1).filter(f) == (if f(s[k]) { s.take(k).filter(f).push(s[k]) } else { s.take(k).filter(f) }),
{
    assert(s.take(k + 1).drop_last() =~= s.take(k));
    reveal(Seq::filter);
}

/// The log line for the answer to an ask: declined, or the error; `None`
/// when the receiver accepted and the upload follows.
pub fn ask_outcome_line(accepted: &Result<bool, String>) -> (r: Option<String>)
    ensures
        match accepted {
            Ok(true) => r is None,
            Ok(false) => r matches Some(s) && s@ == "Receiver declined."@,
            Err(e) => r matches Some(s) && s@ == "Ask error: "@ + e@,
        },
{
    proof {
        reveal_strlit("Receiver declined.");
        reveal_strlit("Ask error: ");
    }
    match accepted {
        Ok(true) => None,
        Ok(false) => Some(String::from_str("Receiver declined.")),
        Err(e) => Some(text_line("Ask error: ", e.as_str())),
    }
}

/// The log line for the result of an upload.
pub fn upload_outcome_line(result: &Result<bool, String>) -> (s: String)
    ensures
        s@ == (match result {
            Ok(true) => "Upload successful."@,
            Ok(false) => "Upload failed."@,
            Err(e) => "Upload error: "@ + e@,
        }),
{
    proof {
        reveal_strlit("Upload successful.");
        reveal_strlit("Upload failed.");
        reveal_strlit("Upload error: ");
    }
    match result {
        Ok(true) => String::from_str("Upload successful."),
        Ok(false) => String::from_str("Upload failed."),
        Err(e) => text_line("Upload error: ", e.as_str()),
    }
}

} // verus!
