//! The window of the client: whether it runs, which pane has the keys,
//! and the messages and actions its components exchange.
use vstd::prelude::*;
use crate::common::{ChannelID, VideoID};
use crate::structures::{ListSong, ListSongID};
use crate::text::push_char;

verus! {

#[derive(Clone, Copy, Debug, PartialEq, Eq, Structural)]
pub enum AppStatus {
    Running,
    Exiting,
}

/// The pane that has the keys, and what the header shows.
#[derive(Clone, Copy, Debug, PartialEq, Eq, Structural)]
pub enum WindowContext {
    Browser,
    Playlist,
    Logs,
}

/// A call from a component of the window up to the window.
#[derive(Debug)]
pub enum UIMessage {
    DownloadSong(VideoID, ListSongID),
    Quit,
    ChangeContext(WindowContext),
    Next,
    Prev,
    StepVolUp,
    StepVolDown,
    SearchArtist(String),
    GetSearchSuggestions(String),
    GetArtistSongs(ChannelID),
    KillPendingSearchTasks,
    KillPendingGetTasks,
    AddSongsToPlaylist(Vec<ListSong>),
    PlaySongs(Vec<ListSong>),
}

/// An action that a key of the window can be bound to.
#[derive(Clone, Copy, Debug, PartialEq, Eq, Structural)]
pub enum UIAction {
    Quit,
    Next,
    Prev,
    StepVolUp,
    StepVolDown,
}

/// The name of an action, as its debug text gives it.
pub open spec fn action_name(a: UIAction) -> Seq<char> {
    match a {
        UIAction::Quit => seq!['Q', 'u', 'i', 't'],
        UIAction::Next => seq!['N', 'e', 'x', 't'],
        UIAction::Prev => seq!['P', 'r', 'e', 'v'],
        UIAction::StepVolUp => seq!['S', 't', 'e', 'p', 'V', 'o', 'l', 'U', 'p'],
        UIAction::StepVolDown => seq!['S', 't', 'e', 'p', 'V', 'o', 'l', 'D', 'o', 'w', 'n'],
    }
}

fn push_all(out: &mut String, cs: &[char])
    ensures
        final(out)@ == old(out)@ + cs@,
{
    let mut i: usize = 0;
    while i < cs.len()
        invariant
            i <= cs.len(),
            out@ == old(out)@ + cs@.subrange(0, i as int),
        decreases cs.len() - i,
    {
        push_char(out, cs[i]);
        i = i + 1;
        assert(out@ =~= old(out)@ + cs@.subrange(0, i as int));
    }
    assert(cs@.subrange(0, cs.len() as int) =~= cs@);
}

impl UIAction {
    /// The context an action is shown under; the window's own actions have none.
    pub fn context(&self) -> (r: String)
        ensures
            r@ == Seq::<char>::empty(),
    {
        String::new()
    }

    /// The description of an action: its name.
    pub fn describe(&self) -> (r: String)
        ensures
            r@ == action_name(*self),
    {
        let mut out = String::new();
        match self {
            UIAction::Quit => push_all(&mut out, &['Q', 'u', 'i', 't']),
            UIAction::Next => push_all(&mut out, &['N', 'e', 'x', 't']),
            UIAction::Prev => push_all(&mut out, &['P', 'r', 'e', 'v']),
            UIAction::StepVolUp => push_all(&mut out, &['S', 't', 'e', 'p', 'V', 'o', 'l', 'U', 'p']),
            UIAction::StepVolDown => push_all(
                &mut out,
                &['S', 't', 'e', 'p', 'V', 'o', 'l', 'D', 'o', 'w', 'n'],
            ),
        }
        assert(out@ =~= action_name(*self));
        out
    }
}

/// The code of a key: a character, a function key, or another key by a
/// number of the terminal front end's choosing.
#[derive(Clone, Copy, Debug, PartialEq, Eq, Structural)]
pub enum KeyCode {
    Char(char),
    F(u8),
    Other(u32),
}

/// A key as the window keeps it: its code, and the modifiers held.
#[derive(Clone, Copy, Debug, PartialEq, Eq, Structural)]
pub struct KeyPress {
    pub code: KeyCode,
    pub modifiers: u8,
}

/// A key bound to an action of the window; a global binding is shown
/// and honoured in every context.
#[derive(Clone, Copy, Debug, PartialEq, Eq, Structural)]
pub struct Keybind {
    pub key: KeyPress,
    pub action: UIAction,
    pub global: bool,
}

/// A binding of a bare key, without modifiers.
pub open spec fn bind(code: KeyCode, action: UIAction, global: bool) -> Keybind {
    Keybind { key: KeyPress { code, modifiers: 0 }, action, global }
}

/// The window's own key bindings: `+` and `-` step the volume, `<` and
/// `>` move to the previous and next song, and F10 quits from anywhere.
pub open spec fn global_keybind_table() -> Seq<Keybind> {
    seq![
        bind(KeyCode::Char('+'), UIAction::StepVolUp, false),
        bind(KeyCode::Char('-'), UIAction::StepVolDown, false),
        bind(KeyCode::Char('<'), UIAction::Prev, false),
        bind(KeyCode::Char('>'), UIAction::Next, false),
        bind(KeyCode::F(10), UIAction::Quit, true),
    ]
}

fn new_bind(code: KeyCode, action: UIAction, global: bool) -> (r: Keybind)
    ensures
        r == bind(code, action, global),
{
    Keybind { key: KeyPress { code, modifiers: 0 }, action, global }
}

/// The window's own key bindings.
pub fn global_keybinds() -> (r: Vec<Keybind>)
    ensures
        r@ == global_keybind_table(),
{
    let mut r: Vec<Keybind> = Vec::new();
    r.push(new_bind(KeyCode::Char('+'), UIAction::StepVolUp, false));
    r.push(new_bind(KeyCode::Char('-'), UIAction::StepVolDown, false));
    r.push(new_bind(KeyCode::Char('<'), UIAction::Prev, false));
    r.push(new_bind(KeyCode::Char('>'), UIAction::Next, false));
    r.push(new_bind(KeyCode::F(10), UIAction::Quit, true));
    assert(r@ =~= global_keybind_table());
    r
}

/// The state of the window that does not belong to one of its panes.
#[derive(Debug)]
pub struct YoutuiWindow {
    pub status: AppStatus,
    pub context: WindowContext,
    pub prev_context: WindowContext,
    /// The messages the components have sent, oldest first.
    pub ui_queue: Vec<UIMessage>,
    pub keybinds: Vec<Keybind>,
    pub key_stack: Vec<KeyPress>,
    pub help_shown: bool,
}

impl YoutuiWindow {
    /// A running window on the browser with its own key bindings, no
    /// message waiting, no key pending, help hidden.
    pub fn new() -> (r: YoutuiWindow)
        ensures
            r.status == AppStatus::Running,
            r.context == WindowContext::Browser,
            r.prev_context == WindowContext::Browser,
            r.ui_queue@.len() == 0,
            r.keybinds@ == global_keybind_table(),
            r.key_stack@.len() == 0,
            !r.help_shown,
    {
        YoutuiWindow {
            status: AppStatus::Running,
            context: WindowContext::Browser,
            prev_context: WindowContext::Browser,
            ui_queue: Vec::new(),
            keybinds: global_keybinds(),
            key_stack: Vec::new(),
            help_shown: false,
        }
    }

    pub fn get_status(&self) -> (r: AppStatus)
        ensures
            r == self.status,
    {
        self.status
    }

    /// Marks the window as exiting; the terminal is handed back by the caller.
    pub fn quit(&mut self)
        ensures
            final(self).status == AppStatus::Exiting,
            final(self).context == old(self).context,
            final(self).prev_context == old(self).prev_context,
            final(self).ui_queue@ == old(self).ui_queue@,
            final(self).keybinds@ == old(self).keybinds@,
            final(self).key_stack@ == old(self).key_stack@,
            final(self).help_shown == old(self).help_shown,
    {
        self.status = AppStatus::Exiting;
    }

    /// Whether keys of an unfinished key sequence are waiting.
    pub fn key_pending(&self) -> (r: bool)
        ensures
            r == (self.key_stack@.len() > 0),
    {
        self.key_stack.len() != 0
    }

    /// Moves to a new context, remembering the current one.
    pub fn change_context(&mut self, new_context: WindowContext)
        ensures
            (final(self).context, final(self).prev_context) == changed(
                (old(self).context, old(self).prev_context),
                new_context,
            ),
            final(self).status == old(self).status,
            final(self).ui_queue@ == old(self).ui_queue@,
            final(self).keybinds@ == old(self).keybinds@,
            final(self).key_stack@ == old(self).key_stack@,
            final(self).help_shown == old(self).help_shown,
    {
        std::mem::swap(&mut self.context, &mut self.prev_context);
        self.context = new_context;
    }

    /// Goes back to the remembered context, remembering the current one.
    pub fn revert_context(&mut self)
        ensures
            (final(self).context, final(self).prev_context) == reverted(
                (old(self).context, old(self).prev_context),
            ),
            final(self).status == old(self).status,
            final(self).ui_queue@ == old(self).ui_queue@,
            final(self).keybinds@ == old(self).keybinds@,
            final(self).key_stack@ == old(self).key_stack@,
            final(self).help_shown == old(self).help_shown,
    {
        std::mem::swap(&mut self.context, &mut self.prev_context);
    }

    /// The key mode whose bindings the help shows: the window's own mode
    /// for the pending keys when it has one, else the mode of the pane of
    /// the context (the logger's for both the playlist and the logs).
    /// Each argument is what that router gives for the pending keys, when
    /// it is a mode.
    pub fn choose_cur_mode<T>(&self, own: Option<T>, browser: Option<T>, logger: Option<T>) -> (r: Option<T>)
        ensures
            r == if own is Some {
                own
            } else {
                match self.context {
                    WindowContext::Browser => browser,
                    WindowContext::Playlist | WindowContext::Logs => logger,
                }
            },
    {
        if own.is_some() {
            return own;
        }
        match self.context {
            WindowContext::Browser => browser,
            WindowContext::Playlist => logger,
            WindowContext::Logs => logger,
        }
    }
}

/// A request that the window hands on to the task manager.
#[derive(Debug)]
pub enum AppRequest {
    Download(VideoID, ListSongID),
    GetSearchSuggestions(String),
    SearchArtists(String),
    GetArtistSongs(ChannelID),
}

/// The kinds of pending tasks that are cancelled together.
#[derive(Clone, Copy, Debug, PartialEq, Eq, Structural)]
pub enum RequestCategory {
    Search,
    Get,
}

/// One call on the playlist pane, made in order.
#[derive(Debug)]
pub enum PlaylistStep {
    /// Empty the playlist and stop what plays.
    Reset,
    /// Append the songs under fresh identifiers, as
    /// `AlbumSongsList::push_song_list` does; it returns the first of them.
    Append(Vec<ListSong>),
    /// Play the song whose identifier the last `Append` returned.
    PlayFirstAppended,
    Next,
    Prev,
    VolumeUp,
    VolumeDown,
}

/// What is left to do once the window has taken a message: the work of
/// the terminal, the task manager and the playlist.
#[derive(Debug)]
pub enum WindowEffect {
    /// The window is exiting: hand the terminal back.
    RestoreTerminal,
    /// The window's own change was all there was to do.
    Nothing,
    SendRequest(AppRequest),
    KillTasks(RequestCategory),
    /// Calls on the playlist pane, in this order.
    Playlist(Vec<PlaylistStep>),
}

/// The playlist calls each message leads to, when it leads to some:
/// playing songs resets the playlist, appends them and plays the first
/// appended; adding songs only appends them.
pub open spec fn playlist_steps(msg: UIMessage) -> Option<Seq<PlaylistStep>> {
    match msg {
        UIMessage::Next => Some(seq![PlaylistStep::Next]),
        UIMessage::Prev => Some(seq![PlaylistStep::Prev]),
        UIMessage::StepVolUp => Some(seq![PlaylistStep::VolumeUp]),
        UIMessage::StepVolDown => Some(seq![PlaylistStep::VolumeDown]),
        UIMessage::AddSongsToPlaylist(songs) => Some(seq![PlaylistStep::Append(songs)]),
        UIMessage::PlaySongs(songs) => Some(
            seq![PlaylistStep::Reset, PlaylistStep::Append(songs), PlaylistStep::PlayFirstAppended],
        ),
        _ => None,
    }
}

/// The effect of each message that does not concern the playlist.
pub open spec fn other_effect(msg: UIMessage) -> WindowEffect {
    match msg {
        UIMessage::DownloadSong(video, song) => WindowEffect::SendRequest(AppRequest::Download(video, song)),
        UIMessage::Quit => WindowEffect::RestoreTerminal,
        UIMessage::GetSearchSuggestions(text) => WindowEffect::SendRequest(AppRequest::GetSearchSuggestions(text)),
        UIMessage::SearchArtist(artist) => WindowEffect::SendRequest(AppRequest::SearchArtists(artist)),
        UIMessage::GetArtistSongs(id) => WindowEffect::SendRequest(AppRequest::GetArtistSongs(id)),
        UIMessage::KillPendingSearchTasks => WindowEffect::KillTasks(RequestCategory::Search),
        UIMessage::KillPendingGetTasks => WindowEffect::KillTasks(RequestCategory::Get),
        _ => WindowEffect::Nothing,
    }
}

/// `e` is the effect that `msg` leads to.
pub open spec fn effect_of(e: WindowEffect, msg: UIMessage) -> bool {
    match playlist_steps(msg) {
        Some(steps) => e matches WindowEffect::Playlist(v) && v@ == steps,
        None => e == other_effect(msg),
    }
}

/// The contexts after a message: a change of context moves to the new one.
pub open spec fn contexts_after(c: Contexts, msg: UIMessage) -> Contexts {
    match msg {
        UIMessage::ChangeContext(new_context) => changed(c, new_context),
        _ => c,
    }
}

/// The status after a message: `Quit` makes the window exit.
pub open spec fn status_after(s: AppStatus, msg: UIMessage) -> AppStatus {
    match msg {
        UIMessage::Quit => AppStatus::Exiting,
        _ => s,
    }
}

/// The status after messages taken in order.
pub open spec fn status_after_all(s: AppStatus, msgs: Seq<UIMessage>) -> AppStatus
    decreases msgs.len(),
{
    if msgs.len() == 0 {
        s
    } else {
        status_after(status_after_all(s, msgs.drop_last()), msgs.last())
    }
}

/// The contexts after messages taken in order.
pub open spec fn contexts_after_all(c: Contexts, msgs: Seq<UIMessage>) -> Contexts
    decreases msgs.len(),
{
    if msgs.len() == 0 {
        c
    } else {
        contexts_after(contexts_after_all(c, msgs.drop_last()), msgs.last())
    }
}

fn playlist_effect(steps: Vec<PlaylistStep>) -> (r: WindowEffect)
    ensures
        r == WindowEffect::Playlist(steps),
{
    WindowEffect::Playlist(steps)
}

impl YoutuiWindow {
    /// Takes one message from a component: applies what concerns the
    /// window itself and returns the rest of the work.
    pub fn handle_ui_message(&mut self, msg: UIMessage) -> (r: WindowEffect)
        ensures
            effect_of(r, msg),
            final(self).status == status_after(old(self).status, msg),
            (final(self).context, final(self).prev_context) == contexts_after(
                (old(self).context, old(self).prev_context),
                msg,
            ),
            final(self).ui_queue@ == old(self).ui_queue@,
            final(self).keybinds@ == old(self).keybinds@,
            final(self).key_stack@ == old(self).key_stack@,
            final(self).help_shown == old(self).help_shown,
    {
        let ghost m = msg;
        match msg {
            UIMessage::DownloadSong(video, song) => WindowEffect::SendRequest(AppRequest::Download(video, song)),
            UIMessage::Quit => {
                self.quit();
                WindowEffect::RestoreTerminal
            },
            UIMessage::ChangeContext(context) => {
                self.change_context(context);
                WindowEffect::Nothing
            },
            UIMessage::Next => {
                let steps = vec![PlaylistStep::Next];
                assert(steps@ =~= seq![PlaylistStep::Next]);
                playlist_effect(steps)
            },
            UIMessage::Prev => {
                let steps = vec![PlaylistStep::Prev];
                assert(steps@ =~= seq![PlaylistStep::Prev]);
                playlist_effect(steps)
            },
            UIMessage::StepVolUp => {
                let steps = vec![PlaylistStep::VolumeUp];
                assert(steps@ =~= seq![PlaylistStep::VolumeUp]);
                playlist_effect(steps)
            },
            UIMessage::StepVolDown => {
                let steps = vec![PlaylistStep::VolumeDown];
                assert(steps@ =~= seq![PlaylistStep::VolumeDown]);
                playlist_effect(steps)
            },
            UIMessage::GetSearchSuggestions(text) => WindowEffect::SendRequest(AppRequest::GetSearchSuggestions(text)),
            UIMessage::SearchArtist(artist) => WindowEffect::SendRequest(AppRequest::SearchArtists(artist)),
            UIMessage::GetArtistSongs(id) => WindowEffect::SendRequest(AppRequest::GetArtistSongs(id)),
            UIMessage::KillPendingSearchTasks => WindowEffect::KillTasks(RequestCategory::Search),
            UIMessage::KillPendingGetTasks => WindowEffect::KillTasks(RequestCategory::Get),
            UIMessage::AddSongsToPlaylist(songs) => {
                let ghost sv = songs;
                let steps = vec![PlaylistStep::Append(songs)];
                assert(steps@ =~= seq![PlaylistStep::Append(sv)]);
                playlist_effect(steps)
            },
            UIMessage::PlaySongs(songs) => {
                let ghost sv = songs;
                let steps = vec![PlaylistStep::Reset, PlaylistStep::Append(songs), PlaylistStep::PlayFirstAppended];
                assert(steps@ =~= seq![PlaylistStep::Reset, PlaylistStep::Append(sv), PlaylistStep::PlayFirstAppended]);
                playlist_effect(steps)
            },
        }
    }

    /// Queues a message from a component, after those already waiting.
    pub fn send_ui_message(&mut self, msg: UIMessage)
        ensures
            final(self).ui_queue@ == old(self).ui_queue@.push(msg),
            final(self).status == old(self).status,
            final(self).context == old(self).context,
            final(self).prev_context == old(self).prev_context,
            final(self).keybinds@ == old(self).keybinds@,
            final(self).key_stack@ == old(self).key_stack@,
            final(self).help_shown == old(self).help_shown,
    {
        self.ui_queue.push(msg);
    }

    /// Takes every waiting message, oldest first, and returns their
    /// effects in the same order; the queue is left empty.
    pub fn process_ui_messages(&mut self) -> (r: Vec<WindowEffect>)
        ensures
            final(self).ui_queue@.len() == 0,
            r@.len() == old(self).ui_queue@.len(),
            forall|i: int| 0 <= i < r@.len() ==> effect_of(#[trigger] r@[i], old(self).ui_queue@[i]),
            final(self).status == status_after_all(old(self).status, old(self).ui_queue@),
            (final(self).context, final(self).prev_context) == contexts_after_all(
                (old(self).context, old(self).prev_context),
                old(self).ui_queue@,
            ),
            final(self).keybinds@ == old(self).keybinds@,
            final(self).key_stack@ == old(self).key_stack@,
            final(self).help_shown == old(self).help_shown,
    {
        let ghost msgs = self.ui_queue@;
        let mut pending: Vec<UIMessage> = Vec::new();
        std::mem::swap(&mut pending, &mut self.ui_queue);
        let mut effects: Vec<WindowEffect> = Vec::new();
        let n = pending.len();
        let mut k: usize = 0;
        while k < n
            invariant
                k <= n,
                n == msgs.len(),
                pending@ == msgs.subrange(k as int, n as int),
                self.ui_queue@.len() == 0,
                effects@.len() == k,
                forall|i: int| 0 <= i < k ==> effect_of(#[trigger] effects@[i], msgs[i]),
                self.status == status_after_all(old(self).status, msgs.subrange(0, k as int)),
                (self.context, self.prev_context) == contexts_after_all(
                    (old(self).context, old(self).prev_context),
                    msgs.subrange(0, k as int),
                ),
                self.keybinds@ == old(self).keybinds@,
                self.key_stack@ == old(self).key_stack@,
                self.help_shown == old(self).help_shown,
                msgs == old(self).ui_queue@,
            decreases n - k,
        {
            let msg = pending.remove(0);
            proof {
                assert(msg == msgs[k as int]);
                assert(pending@ =~= msgs.subrange(k + 1, n as int));
                assert(msgs.subrange(0, k + 1).drop_last() =~= msgs.subrange(0, k as int));
                assert(msgs.subrange(0, k + 1).last() == msgs[k as int]);
            }
            let e = self.handle_ui_message(msg);
            effects.push(e);
            k = k + 1;
        }
        assert(msgs.subrange(0, n as int) =~= msgs);
        effects
    }
}

/// The contexts of the window: (current, remembered).
pub type Contexts = (WindowContext, WindowContext);

pub open spec fn changed(c: Contexts, new_context: WindowContext) -> Contexts {
    (new_context, c.0)
}

pub open spec fn reverted(c: Contexts) -> Contexts {
    (c.1, c.0)
}

/// Going back after a change returns to the context before the change.
pub proof fn law_revert_undoes_change(c: Contexts, new_context: WindowContext)
    ensures
        reverted(changed(c, new_context)).0 == c.0,
        reverted(changed(c, new_context)).1 == new_context,
{
}

/// Going back twice leaves the contexts as they were.
pub proof fn law_revert_twice(c: Contexts)
    ensures
        reverted(reverted(c)) == c,
{
}

}
