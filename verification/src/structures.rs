//! Song lists, download and playback states of the client.
use vstd::prelude::*;
use crate::parse::SongResult;
use crate::text::{decimal, decimal_string, push_char, opt_str};
use crate::view::Scrollable;

verus! {

/// Identifier of a song within one list; handed out in increasing order.
#[derive(Clone, Copy, Debug, PartialEq, Eq, Structural, PartialOrd)]
pub struct ListSongID(pub usize);

impl Default for ListSongID {
    fn default() -> (r: ListSongID)
        ensures
            r.0 == 0,
    {
        ListSongID(0)
    }
}

/// A percentage as an integer.
#[derive(Clone, Copy, Debug, PartialEq, Eq, Structural, PartialOrd)]
pub struct Percentage(pub u8);

impl Default for Percentage {
    fn default() -> (r: Percentage)
        ensures
            r.0 == 0,
    {
        Percentage(0)
    }
}

/// Loading state of a list.
#[derive(Clone, Copy, Debug, PartialEq, Eq, Structural)]
pub enum ListStatus {
    New,
    Loading,
    InProgress,
    Loaded,
    Error,
}

/// Download state of a song; a downloaded song keeps the path of its file.
#[derive(Clone, Debug, PartialEq, Eq)]
pub enum DownloadStatus {
    NotQueued,
    Queued,
    Downloading(Percentage),
    Downloaded(String),
    Failed,
}

/// Playback state of the player.
#[derive(Clone, Copy, Debug, PartialEq, Eq, Structural)]
pub enum PlayState {
    NotPlaying,
    Playing(ListSongID),
    Transitioning,
    Paused(ListSongID),
    Stopped(ListSongID),
    Buffering(ListSongID),
}

/// The state that pausing leads to.
pub open spec fn paused_state(s: PlayState) -> PlayState {
    match s {
        PlayState::NotPlaying => PlayState::NotPlaying,
        PlayState::Stopped(id) => PlayState::Stopped(id),
        PlayState::Playing(id) => PlayState::Paused(id),
        PlayState::Paused(id) => PlayState::Paused(id),
        PlayState::Buffering(id) => PlayState::Paused(id),
        PlayState::Transitioning => PlayState::Transitioning,
    }
}

/// The state that stopping leads to.
pub open spec fn stopped_state(s: PlayState) -> PlayState {
    match s {
        PlayState::NotPlaying => PlayState::NotPlaying,
        PlayState::Stopped(id) => PlayState::Stopped(id),
        PlayState::Playing(id) => PlayState::Stopped(id),
        PlayState::Buffering(id) => PlayState::Stopped(id),
        PlayState::Paused(id) => PlayState::Stopped(id),
        PlayState::Transitioning => PlayState::Transitioning,
    }
}

/// The song a state refers to, if any.
pub open spec fn state_song(s: PlayState) -> Option<ListSongID> {
    match s {
        PlayState::NotPlaying | PlayState::Transitioning => None,
        PlayState::Playing(id) | PlayState::Paused(id) | PlayState::Stopped(id)
        | PlayState::Buffering(id) => Some(id),
    }
}

impl PlayState {
    pub fn transition_to_paused(self) -> (r: Self)
        ensures
            r == paused_state(self),
    {
        match self {
            Self::NotPlaying => Self::NotPlaying,
            Self::Stopped(id) => Self::Stopped(id),
            Self::Playing(id) => Self::Paused(id),
            Self::Paused(id) => Self::Paused(id),
            Self::Buffering(id) => Self::Paused(id),
            Self::Transitioning => Self::Transitioning,
        }
    }

    pub fn transition_to_stopped(self) -> (r: Self)
        ensures
            r == stopped_state(self),
    {
        match self {
            Self::NotPlaying => Self::NotPlaying,
            Self::Stopped(id) => Self::Stopped(id),
            Self::Playing(id) => Self::Stopped(id),
            Self::Buffering(id) => Self::Stopped(id),
            Self::Paused(id) => Self::Stopped(id),
            Self::Transitioning => Self::Transitioning,
        }
    }

    /// Hands out the current state and leaves `Transitioning` in its place.
    pub fn take_whilst_transitioning(&mut self) -> (r: Self)
        ensures
            r == *old(self),
            *final(self) == PlayState::Transitioning,
    {
        let mut temp = Self::Transitioning;
        std::mem::swap(self, &mut temp);
        temp
    }
}

/// Pausing twice is pausing once.
pub proof fn law_pause_idempotent(s: PlayState)
    ensures
        paused_state(paused_state(s)) == paused_state(s),
{
}

/// Stopping twice is stopping once.
pub proof fn law_stop_idempotent(s: PlayState)
    ensures
        stopped_state(stopped_state(s)) == stopped_state(s),
{
}

/// Stopping a paused player is stopping it.
pub proof fn law_stop_after_pause(s: PlayState)
    ensures
        stopped_state(paused_state(s)) == stopped_state(s),
{
}

/// Pausing and stopping keep the song that the state refers to.
pub proof fn law_transitions_keep_song(s: PlayState)
    ensures
        state_song(paused_state(s)) == state_song(s),
        state_song(stopped_state(s)) == state_song(s),
{
}

/// The icon shown in front of a song for each download state.
pub open spec fn icon_of(s: DownloadStatus) -> char {
    match s {
        DownloadStatus::Failed => '\u{f071}',
        DownloadStatus::Queued => '\u{f019}',
        DownloadStatus::NotQueued => ' ',
        DownloadStatus::Downloading(_) => '\u{f019}',
        DownloadStatus::Downloaded(_) => '\u{f14a}',
    }
}

impl DownloadStatus {
    pub fn list_icon(&self) -> (c: char)
        ensures
            c == icon_of(*self),
    {
        match self {
            Self::Failed => '\u{f071}',
            Self::Queued => '\u{f019}',
            Self::NotQueued => ' ',
            Self::Downloading(_) => '\u{f019}',
            Self::Downloaded(_) => '\u{f14a}',
        }
    }
}


/// A song of a list, with the album and year it was listed under.
#[derive(Clone, Debug, PartialEq, Eq)]
pub struct ListSong {
    pub raw: SongResult,
    pub download_status: DownloadStatus,
    pub id: ListSongID,
    pub year: String,
    pub artists: Vec<String>,
    pub album: String,
}

impl ListSong {
    pub open spec fn spec_year(&self) -> Seq<char> {
        self.year@
    }

    pub open spec fn spec_album(&self) -> Seq<char> {
        self.album@
    }

    pub open spec fn spec_artists(&self) -> Seq<String> {
        self.artists@
    }

    /// The same song under another identifier.
    pub open spec fn with_id(self, id: ListSongID) -> ListSong {
        ListSong { id, ..self }
    }

    /// `self` and `other` hold the same data, the artist names compared as sequences.
    pub open spec fn same_as(&self, other: ListSong) -> bool {
        &&& self.raw == other.raw
        &&& self.download_status == other.download_status
        &&& self.id == other.id
        &&& self.year == other.year
        &&& self.artists@ == other.artists@
        &&& self.album == other.album
    }

    /// A song as the list makes it from a parsed song: not queued, no artists.
    pub open spec fn is_fresh(&self, raw: SongResult, album: String, year: String, id: ListSongID) -> bool {
        &&& self.raw == raw
        &&& self.download_status == DownloadStatus::NotQueued
        &&& self.id == id
        &&& self.year == year
        &&& self.album == album
        &&& self.artists@.len() == 0
    }

    fn set_year(&mut self, year: String)
        ensures
            *final(self) == (ListSong { year, ..*old(self) }),
    {
        self.year = year;
    }

    fn set_album(&mut self, album: String)
        ensures
            *final(self) == (ListSong { album, ..*old(self) }),
    {
        self.album = album;
    }

    pub fn get_year(&self) -> (r: &String)
        ensures
            r@ == self.spec_year(),
    {
        &self.year
    }

    fn set_artists(&mut self, artists: Vec<String>)
        ensures
            *final(self) == (ListSong { artists, ..*old(self) }),
    {
        self.artists = artists;
    }

    fn get_artists(&self) -> (r: &Vec<String>)
        ensures
            r@ == self.spec_artists(),
    {
        &self.artists
    }

    pub fn get_album(&self) -> (r: &String)
        ensures
            r@ == self.spec_album(),
    {
        &self.album
    }

    pub fn get_track_no(&self) -> (r: usize)
        ensures
            r == self.raw.track_no,
    {
        self.raw.get_track_no()
    }

    /// The text of table column `index` for this song.
    pub open spec fn field_text(&self, index: int) -> Option<Seq<char>> {
        if index == 0 {
            Some(status_text(self.download_status))
        } else if index == 1 {
            Some(decimal(self.raw.track_no as nat))
        } else if index == 2 {
            Some(self.album@)
        } else if index == 3 {
            Some(self.raw.title@)
        } else if index == 4 {
            opt_str(self.raw.duration)
        } else if index == 5 {
            Some(self.year@)
        } else {
            None
        }
    }

    /// The text shown in column `index` of the song table; there are six columns.
    pub fn get_field(&self, index: usize) -> (r: Option<String>)
        ensures
            opt_str(r) == self.field_text(index as int),
    {
        match index {
            0 => Some(status_cell(&self.download_status)),
            1 => Some(decimal_string(self.get_track_no() as u128)),
            2 => Some(self.album.clone()),
            3 => Some(self.raw.get_title().clone()),
            4 => match self.raw.get_duration() {
                Some(d) => Some(d.clone()),
                None => None,
            },
            5 => Some(self.year.clone()),
            _ => None,
        }
    }

    /// The number of table columns of a song.
    pub fn len(&self) -> (r: usize)
        ensures
            r == 6,
    {
        6
    }
}

/// The status column: the icon, and while downloading the percentage as `[p]%`.
pub open spec fn status_text(s: DownloadStatus) -> Seq<char> {
    match s {
        DownloadStatus::Downloading(p) => seq![icon_of(s), '['] + decimal(p.0 as nat) + seq![']', '%'],
        _ => seq![icon_of(s)],
    }
}

/// Download states that tell the user the same thing: waiting and
/// downloading share the download icon; every other state is alone.
pub open spec fn same_download_kind(a: DownloadStatus, b: DownloadStatus) -> bool {
    match (a, b) {
        (DownloadStatus::NotQueued, DownloadStatus::NotQueued) => true,
        (DownloadStatus::Failed, DownloadStatus::Failed) => true,
        (DownloadStatus::Downloaded(_), DownloadStatus::Downloaded(_)) => true,
        (DownloadStatus::Queued, DownloadStatus::Queued) => true,
        (DownloadStatus::Queued, DownloadStatus::Downloading(_)) => true,
        (DownloadStatus::Downloading(_), DownloadStatus::Queued) => true,
        (DownloadStatus::Downloading(_), DownloadStatus::Downloading(_)) => true,
        _ => false,
    }
}

/// Two download states show the same icon exactly when they tell the
/// same thing: a failed, a downloaded and a song not queued each have an
/// icon of their own, and a waiting song looks like one being downloaded.
pub proof fn law_icons_tell_states_apart(a: DownloadStatus, b: DownloadStatus)
    ensures
        (icon_of(a) == icon_of(b)) == same_download_kind(a, b),
{
}

/// The status cell of a song starts with the icon of its download state;
/// only a song being downloaded shows more, its percentage, as
/// `[p]%` after the icon.
pub proof fn law_status_cell_starts_with_icon(s: DownloadStatus)
    ensures
        status_text(s).len() > 0,
        status_text(s)[0] == icon_of(s),
        !(s is Downloading) ==> status_text(s) == seq![icon_of(s)],
        s matches DownloadStatus::Downloading(p) ==> status_text(s).len() == decimal(p.0 as nat).len() + 4
            && status_text(s).subrange(2, status_text(s).len() - 2) == decimal(p.0 as nat)
            && status_text(s)[1] == '[' && status_text(s).last() == '%',
{
    match s {
        DownloadStatus::Downloading(p) => {
            let d = decimal(p.0 as nat);
            let t = status_text(s);
            assert(t.subrange(2, t.len() - 2) =~= d);
        },
        _ => {},
    }
}

fn status_cell(s: &DownloadStatus) -> (r: String)
    ensures
        r@ == status_text(*s),
{
    let mut out = String::new();
    push_char(&mut out, s.list_icon());
    match s {
        DownloadStatus::Downloading(p) => {
            push_char(&mut out, '[');
            let d = decimal_string(p.0 as u128);
            out.append(d.as_str());
            push_char(&mut out, ']');
            push_char(&mut out, '%');
            assert(out@ =~= status_text(*s));
        },
        _ => {
            assert(out@ =~= status_text(*s));
        },
    }
    out
}

fn clone_song_result(s: &SongResult) -> (r: SongResult)
    ensures
        r == *s,
{
    let duration = match &s.duration {
        Some(d) => Some(d.clone()),
        None => None,
    };
    SongResult { title: s.title.clone(), duration, track_no: s.track_no }
}

fn clone_download_status(s: &DownloadStatus) -> (r: DownloadStatus)
    ensures
        r == *s,
{
    match s {
        DownloadStatus::NotQueued => DownloadStatus::NotQueued,
        DownloadStatus::Queued => DownloadStatus::Queued,
        DownloadStatus::Downloading(p) => DownloadStatus::Downloading(*p),
        DownloadStatus::Downloaded(path) => DownloadStatus::Downloaded(path.clone()),
        DownloadStatus::Failed => DownloadStatus::Failed,
    }
}

fn clone_song(s: &ListSong) -> (r: ListSong)
    ensures
        r.same_as(*s),
{
    let artists = s.artists.clone();
    assert(artists@ =~= s.artists@);
    ListSong {
        raw: clone_song_result(&s.raw),
        download_status: clone_download_status(&s.download_status),
        id: s.id,
        year: s.year.clone(),
        artists,
        album: s.album.clone(),
    }
}


/// Pushing a song under the next identifier keeps identifiers fresh.
proof fn lemma_push_keeps_fresh(before: AlbumSongsList, after: AlbumSongsList)
    requires
        before.ids_fresh(),
        before.next_id.0 < usize::MAX,
        after.next_id.0 == before.next_id.0 + 1,
        after.list@.len() == before.list@.len() + 1,
        forall|i: int| 0 <= i < before.list@.len() ==> after.list@[i] == before.list@[i],
        after.list@.last().id == after.next_id,
    ensures
        after.ids_fresh(),
{
    let n = before.list@.len() as int;
    assert forall|i: int| 0 <= i < after.list@.len() implies #[trigger] after.list@[i].id.0 <= after.next_id.0 by {
        if i < n {
            assert(after.list@[i] == before.list@[i]);
        }
    }
    assert forall|i: int, j: int| 0 <= i < j < after.list@.len() implies
        #[trigger] after.list@[i].id.0 < #[trigger] after.list@[j].id.0 by {
        assert(after.list@[i] == before.list@[i]);
        assert(before.list@[i].id.0 <= before.next_id.0);
        if j < n {
            assert(after.list@[j] == before.list@[j]);
            assert(before.list@[i].id.0 < before.list@[j].id.0);
        } else {
            assert(after.list@[j] == after.list@.last());
        }
    }
}

/// The songs of the albums of one artist, with the selected row.
#[derive(Clone, Debug)]
pub struct AlbumSongsList {
    pub state: ListStatus,
    pub list: Vec<ListSong>,
    pub next_id: ListSongID,
    pub cur_selected: Option<usize>,
}

impl AlbumSongsList {
    /// Identifiers in the list are strictly increasing and none is above
    /// the last one handed out, so every identifier names one song.
    pub open spec fn ids_fresh(&self) -> bool {
        &&& forall|i: int| 0 <= i < self.list@.len() ==> #[trigger] self.list@[i].id.0 <= self.next_id.0
        &&& forall|i: int, j: int|
            0 <= i < j < self.list@.len() ==> #[trigger] self.list@[i].id.0 < #[trigger] self.list@[j].id.0
    }

    /// Hands out the next identifier.
    pub fn create_next_id(&mut self) -> (r: ListSongID)
        requires
            old(self).next_id.0 < usize::MAX,
        ensures
            r.0 == old(self).next_id.0 + 1,
            final(self).next_id == r,
            final(self).list == old(self).list,
            final(self).state == old(self).state,
            final(self).cur_selected == old(self).cur_selected,
    {
        self.next_id.0 = self.next_id.0 + 1;
        self.next_id
    }

    /// Adds a parsed song under a new identifier and returns that identifier.
    pub fn add_raw_song(&mut self, song: SongResult, album: String, year: String) -> (r: ListSongID)
        requires
            old(self).next_id.0 < usize::MAX,
        ensures
            r.0 == old(self).next_id.0 + 1,
            final(self).next_id == r,
            final(self).list@.len() == old(self).list@.len() + 1,
            final(self).list@.subrange(0, old(self).list@.len() as int) == old(self).list@,
            final(self).list@.last().is_fresh(song, album, year, r),
            final(self).state == old(self).state,
            final(self).cur_selected == old(self).cur_selected,
            old(self).ids_fresh() ==> final(self).ids_fresh(),
    {
        let id = self.create_next_id();
        let artists: Vec<String> = Vec::new();
        self.list.push(ListSong {
            raw: song,
            download_status: DownloadStatus::NotQueued,
            id,
            year,
            artists,
            album,
        });
        assert(self.list@.subrange(0, old(self).list@.len() as int) =~= old(self).list@);
        proof {
            if old(self).ids_fresh() {
                lemma_push_keeps_fresh(*old(self), *self);
            }
        }
        id
    }

    /// Adds the parsed songs of one album, in order, under consecutive new identifiers.
    pub fn append_raw_songs(&mut self, raw_list: Vec<SongResult>, album: String, year: String)
        requires
            old(self).next_id.0 + raw_list@.len() <= usize::MAX,
        ensures
            final(self).next_id.0 == old(self).next_id.0 + raw_list@.len(),
            final(self).list@.len() == old(self).list@.len() + raw_list@.len(),
            final(self).list@.subrange(0, old(self).list@.len() as int) == old(self).list@,
            forall|k: int| 0 <= k < raw_list@.len() ==> #[trigger] final(self).list@[old(self).list@.len() + k].is_fresh(
                raw_list@[k], album, year, ListSongID((old(self).next_id.0 + k + 1) as usize)),
            final(self).state == old(self).state,
            final(self).cur_selected == old(self).cur_selected,
            old(self).ids_fresh() ==> final(self).ids_fresh(),
    {
        let ghost old_list = self.list@;
        let ghost old_next = self.next_id.0;
        let ghost all = raw_list@;
        let n = raw_list.len();
        let mut rest = raw_list;
        let mut k: usize = 0;
        while k < n
            invariant
                n == all.len(),
                k <= n,
                rest@ == all.subrange(k as int, n as int),
                old_next + n <= usize::MAX,
                self.next_id.0 == old_next + k,
                self.list@.len() == old_list.len() + k,
                self.list@.subrange(0, old_list.len() as int) == old_list,
                forall|j: int| 0 <= j < k ==> #[trigger] self.list@[old_list.len() + j].is_fresh(
                    all[j], album, year, ListSongID((old_next + j + 1) as usize)),
                self.state == old(self).state,
                self.cur_selected == old(self).cur_selected,
                old(self).ids_fresh() ==> self.ids_fresh(),
                old(self).list@ == old_list,
                old(self).next_id.0 == old_next,
            decreases n - k,
        {
            let song = rest.remove(0);
            let ghost before = self.list@;
            self.add_raw_song(song, album.clone(), year.clone());
            proof {
                assert(rest@ =~= all.subrange(k + 1, n as int));
                assert forall|j: int| 0 <= j < k + 1 implies #[trigger] self.list@[old_list.len() + j].is_fresh(
                    all[j], album, year, ListSongID((old_next + j + 1) as usize)) by {
                    if j < k {
                        assert(self.list@[old_list.len() + j] == before[old_list.len() + j]);
                    }
                }
                assert(self.list@.subrange(0, old_list.len() as int) =~= old_list);
            }
            k = k + 1;
        }
    }


    /// Adds songs of another list under new identifiers and returns the first of them.
    pub fn push_song_list(&mut self, song_list: Vec<ListSong>) -> (r: ListSongID)
        requires
            song_list@.len() > 0,
            old(self).next_id.0 + song_list@.len() <= usize::MAX,
        ensures
            r.0 == old(self).next_id.0 + 1,
            final(self).next_id.0 == old(self).next_id.0 + song_list@.len(),
            final(self).list@ == old(self).list@ + Seq::new(
                song_list@.len(),
                |k: int| song_list@[k].with_id(ListSongID((old(self).next_id.0 + k + 1) as usize)),
            ),
            final(self).state == old(self).state,
            final(self).cur_selected == old(self).cur_selected,
            old(self).ids_fresh() ==> final(self).ids_fresh(),
    {
        let ghost old_list = self.list@;
        let ghost old_next = self.next_id.0;
        let ghost all = song_list@;
        let n = song_list.len();
        let mut rest = song_list;
        let first_id = ListSongID(self.next_id.0 + 1);
        let mut k: usize = 0;
        while k < n
            invariant
                n == all.len(),
                k <= n,
                rest@ == all.subrange(k as int, n as int),
                old_next + n <= usize::MAX,
                self.next_id.0 == old_next + k,
                self.list@ == old_list + Seq::new(
                    k as nat,
                    |j: int| all[j].with_id(ListSongID((old_next + j + 1) as usize)),
                ),
                self.state == old(self).state,
                self.cur_selected == old(self).cur_selected,
                old(self).ids_fresh() ==> self.ids_fresh(),
                old(self).list@ == old_list,
                old(self).next_id.0 == old_next,
            decreases n - k,
        {
            let mut song = rest.remove(0);
            let ghost before_all = *self;
            song.id = self.create_next_id();
            let ghost before = self.list@;
            self.list.push(song);
            proof {
                assert(rest@ =~= all.subrange(k + 1, n as int));
                assert(self.list@ =~= old_list + Seq::new(
                    (k + 1) as nat,
                    |j: int| all[j].with_id(ListSongID((old_next + j + 1) as usize)),
                ));
                if old(self).ids_fresh() {
                    lemma_push_keeps_fresh(before_all, *self);
                }
            }
            k = k + 1;
        }
        first_id
    }

    /// Adds a copy of `song` under a new identifier and returns that identifier.
    pub fn push_clone_listsong(&mut self, song: &ListSong) -> (r: ListSongID)
        requires
            old(self).next_id.0 < usize::MAX,
        ensures
            r.0 == old(self).next_id.0 + 1,
            final(self).next_id == r,
            final(self).list@.len() == old(self).list@.len() + 1,
            final(self).list@.subrange(0, old(self).list@.len() as int) == old(self).list@,
            final(self).list@.last().same_as(song.with_id(r)),
            final(self).state == old(self).state,
            final(self).cur_selected == old(self).cur_selected,
            old(self).ids_fresh() ==> final(self).ids_fresh(),
    {
        let mut cloned_song = clone_song(song);
        let id = self.create_next_id();
        cloned_song.id = id;
        self.list.push(cloned_song);
        assert(self.list@.subrange(0, old(self).list@.len() as int) =~= old(self).list@);
        proof {
            if old(self).ids_fresh() {
                lemma_push_keeps_fresh(*old(self), *self);
            }
        }
        id
    }
}

impl Default for AlbumSongsList {
    fn default() -> (r: AlbumSongsList)
        ensures
            r.state == ListStatus::New,
            r.list@.len() == 0,
            r.next_id.0 == 0,
            r.cur_selected is None,
            r.ids_fresh(),
    {
        AlbumSongsList {
            state: ListStatus::New,
            list: Vec::new(),
            next_id: ListSongID(0),
            cur_selected: None,
        }
    }
}

/// The row selected after scrolling by `amount` from `cur` in a list of
/// `len` rows: moving below the first row or beyond the addressable range
/// lands on the first row, moving past the last row stops at the last one.
pub open spec fn scrolled_to(cur: Option<usize>, amount: int, len: nat) -> usize {
    let base: int = match cur {
        Some(c) => c as int,
        None => 0,
    };
    let target: int = base + amount;
    let moved: int = if 0 <= target <= usize::MAX { target } else { 0 };
    let last: int = if len == 0 { 0 } else { len - 1 };
    (if moved <= last { moved } else { last }) as usize
}

impl Scrollable for AlbumSongsList {
    fn get_selected_item(&self) -> (r: usize)
        ensures
            r == match self.cur_selected {
                Some(c) => c,
                None => 0,
            },
    {
        match self.cur_selected {
            Some(c) => c,
            None => 0,
        }
    }

    fn increment_list(&mut self, amount: isize)
        ensures
            final(self).cur_selected == Some(scrolled_to(old(self).cur_selected, amount as int, old(self).list@.len())),
            final(self).list == old(self).list,
            final(self).state == old(self).state,
            final(self).next_id == old(self).next_id,
    {
        let base: usize = match self.cur_selected {
            Some(c) => c,
            None => 0,
        };
        let moved: usize = if amount >= 0 {
            let up = amount as usize;
            if base <= usize::MAX - up {
                base + up
            } else {
                0
            }
        } else {
            let down: usize = if amount == isize::MIN {
                (isize::MAX as usize) + 1
            } else {
                (-amount) as usize
            };
            if base >= down {
                base - down
            } else {
                0
            }
        };
        let last: usize = if self.list.len() == 0 {
            0
        } else {
            self.list.len() - 1
        };
        self.cur_selected = Some(if moved <= last {
            moved
        } else {
            last
        });
    }
}

/// After any scroll of a non-empty list the selected row is one of its rows.
pub proof fn law_scroll_stays_in_list(cur: Option<usize>, amount: int, len: nat)
    requires
        len > 0,
        len <= usize::MAX,
    ensures
        scrolled_to(cur, amount, len) < len,
{
}

}
