//! The overlay's display state: the debounce filter, the bounded buffer of
//! shown symbols, and the fade state machine that dims the text and finally
//! clears it. Time is given by the caller in milliseconds from any fixed origin.
use vstd::prelude::*;
use crate::fade::{
    background_alpha, elapsed_between, opacity_at, opacity_for_elapsed, text_alpha, OPACITY_FULL,
};
use crate::keymap::{format_key, is_delimiter, is_delimiter_key, normalized, same_text};

verus! {

/// Most symbols the display buffer holds.
pub const MAX_BUFFER_SIZE: usize = 7;

/// A repeat of the last accepted key is accepted only after more than this
/// many milliseconds.
pub const DEBOUNCE_MS: u64 = 50;

/// The display state as values: the shown symbols, the last accepted raw key,
/// when it was accepted, and the current opacity in thousandths.
pub struct DisplayModel {
    pub buffer: Seq<Seq<char>>,
    pub last_key: Option<Seq<char>>,
    pub last_press: int,
    pub opacity: int,
}

/// The buffer stays within its bound and the opacity within its range.
pub open spec fn model_wf(m: DisplayModel) -> bool {
    &&& m.buffer.len() <= MAX_BUFFER_SIZE
    &&& 0 <= m.opacity <= OPACITY_FULL
}

/// The debounce filter: key `k` reported at `now` is accepted unless it
/// repeats the last accepted key within `DEBOUNCE_MS` of its acceptance.
pub open spec fn accepts(m: DisplayModel, k: Seq<char>, now: int) -> bool {
    m.last_key != Some(k) || elapsed_between(m.last_press, now) > DEBOUNCE_MS
}

/// The buffer after the accepted raw key `k`: emptied on a delimiter or when
/// already full, else extended by the normalized symbol of `k`.
pub open spec fn appended(buf: Seq<Seq<char>>, k: Seq<char>) -> Seq<Seq<char>> {
    if is_delimiter(k) || buf.len() >= MAX_BUFFER_SIZE {
        Seq::empty()
    } else {
        buf.push(normalized(k))
    }
}

/// The state after raw key `k` is reported at `now`: unchanged if the
/// debounce filter rejects it; otherwise the key goes to the buffer, becomes
/// the last key, and the fade starts over at full opacity.
pub open spec fn after_key(m: DisplayModel, k: Seq<char>, now: int) -> DisplayModel {
    if accepts(m, k, now) {
        DisplayModel {
            buffer: appended(m.buffer, k),
            last_key: Some(k),
            last_press: now,
            opacity: OPACITY_FULL as int,
        }
    } else {
        m
    }
}

/// The state after a tick at `now`: opacity follows the time since the last
/// accepted key, and the buffer is emptied once opacity reaches zero.
pub open spec fn after_tick(m: DisplayModel, now: int) -> DisplayModel {
    let o = opacity_at(elapsed_between(m.last_press, now));
    DisplayModel {
        buffer: if o == 0 { Seq::empty() } else { m.buffer },
        last_key: m.last_key,
        last_press: m.last_press,
        opacity: o,
    }
}

/// One frame at `now`: the key received in it, if any, then the tick.
pub open spec fn after_update(m: DisplayModel, key: Option<Seq<char>>, now: int) -> DisplayModel {
    let n = match key {
        Some(k) => after_key(m, k, now),
        None => m,
    };
    after_tick(n, now)
}

/// The views of a sequence of strings.
pub open spec fn texts(v: Seq<String>) -> Seq<Seq<char>> {
    v.map_values(|s: String| s@)
}

/// The symbols of `s` written one after another.
pub open spec fn joined(s: Seq<Seq<char>>) -> Seq<char>
    decreases s.len(),
{
    if s.len() == 0 {
        Seq::empty()
    } else {
        joined(s.drop_last()) + s.last()
    }
}

/// The display state of the overlay.
pub struct KeyDisplayApp {
    buffer: Vec<String>,
    last_press_ms: u64,
    last_key: Option<String>,
    opacity: u32,
}

impl View for KeyDisplayApp {
    type V = DisplayModel;

    closed spec fn view(&self) -> DisplayModel {
        DisplayModel {
            buffer: texts(self.buffer@),
            last_key: match self.last_key {
                Some(s) => Some(s@),
                None => None,
            },
            last_press: self.last_press_ms as int,
            opacity: self.opacity as int,
        }
    }
}

/// Milliseconds from `since` to `now`; zero when `now` lies before `since`.
pub fn elapsed_since(since: u64, now: u64) -> (r: u64)
    ensures
        r as int == elapsed_between(since as int, now as int),
{
    if now >= since {
        now - since
    } else {
        0
    }
}

impl KeyDisplayApp {
    /// Whether the state is well formed.
    pub open spec fn wf(&self) -> bool {
        model_wf(self@)
    }

    /// The state at start-up, at time `now_ms`: nothing shown, no last key,
    /// full opacity.
    pub fn new(now_ms: u64) -> (r: Self)
        ensures
            r.wf(),
            r@ == (DisplayModel {
                buffer: Seq::empty(),
                last_key: None,
                last_press: now_ms as int,
                opacity: OPACITY_FULL as int,
            }),
    {
        let r = KeyDisplayApp {
            buffer: Vec::new(),
            last_press_ms: now_ms,
            last_key: None,
            opacity: OPACITY_FULL,
        };
        assert(texts(r.buffer@) =~= Seq::empty());
        r
    }

    /// The debounce filter: whether raw key `key` reported at `now_ms` is a
    /// keystroke rather than a false repeat of the last accepted key.
    pub fn is_valid_keystroke(&self, key: &str, now_ms: u64) -> (r: bool)
        ensures
            r == accepts(self@, key@, now_ms as int),
    {
        match &self.last_key {
            Some(last) => {
                if same_text(last.as_str(), key) {
                    elapsed_since(self.last_press_ms, now_ms) > DEBOUNCE_MS
                } else {
                    true
                }
            },
            None => true,
        }
    }

    /// Whether accepting raw key `key` empties the buffer instead of adding to
    /// it: on a delimiter key, or when the buffer is full.
    pub fn should_clear_buffer(&self, key: &str) -> (r: bool)
        ensures
            r == (is_delimiter(key@) || self@.buffer.len() >= MAX_BUFFER_SIZE),
    {
        is_delimiter_key(key) || self.buffer.len() >= MAX_BUFFER_SIZE
    }

    /// The buffer manager: adds the normalized symbol of the accepted raw key
    /// `key`, or empties the buffer on a delimiter or when it is full.
    pub fn append_key(&mut self, key: String)
        requires
            old(self).wf(),
        ensures
            final(self).wf(),
            final(self)@ == (DisplayModel { buffer: appended(old(self)@.buffer, key@), ..old(self)@ }),
            is_delimiter(key@) ==> final(self)@.buffer.len() == 0,
            old(self)@.buffer.len() == MAX_BUFFER_SIZE ==> final(self)@.buffer.len() == 0,
            !is_delimiter(key@) && old(self)@.buffer.len() < MAX_BUFFER_SIZE
                ==> final(self)@.buffer == old(self)@.buffer.push(normalized(key@)),
    {
        if self.should_clear_buffer(key.as_str()) {
            self.buffer.clear();
            assert(texts(self.buffer@) =~= Seq::empty());
        } else {
            let sym = format_key(key);
            let ghost before = self.buffer@;
            self.buffer.push(sym);
            assert(texts(self.buffer@) =~= texts(before).push(sym@));
        }
    }

    /// Reports raw key `key` at `now_ms`. If the debounce filter accepts it,
    /// the buffer takes it, it becomes the last key, and the fade restarts at
    /// full opacity. Returns whether it was accepted.
    pub fn accept_key(&mut self, key: String, now_ms: u64) -> (r: bool)
        requires
            old(self).wf(),
        ensures
            final(self).wf(),
            r == accepts(old(self)@, key@, now_ms as int),
            final(self)@ == after_key(old(self)@, key@, now_ms as int),
            r ==> final(self)@.opacity == OPACITY_FULL && final(self)@.last_press == now_ms,
    {
        if self.is_valid_keystroke(key.as_str(), now_ms) {
            let k = key.clone();
            self.append_key(key);
            self.last_press_ms = now_ms;
            self.last_key = Some(k);
            self.opacity = OPACITY_FULL;
            true
        } else {
            false
        }
    }

    /// Advances the fade to `now_ms`: opacity follows the time since the last
    /// accepted key, and once it reaches zero the buffer is emptied.
    pub fn tick(&mut self, now_ms: u64)
        requires
            old(self).wf(),
        ensures
            final(self).wf(),
            final(self)@ == after_tick(old(self)@, now_ms as int),
            final(self)@.opacity == 0 ==> final(self)@.buffer.len() == 0,
    {
        let e = elapsed_since(self.last_press_ms, now_ms);
        let o = opacity_for_elapsed(e);
        self.opacity = o;
        if o == 0 {
            self.buffer.clear();
            assert(texts(self.buffer@) =~= Seq::empty());
        }
    }

    /// One frame at `now_ms`: handles the key received in it, if any, then
    /// advances the fade. Returns whether a key was accepted.
    pub fn update(&mut self, key: Option<String>, now_ms: u64) -> (r: bool)
        requires
            old(self).wf(),
        ensures
            final(self).wf(),
            final(self)@ == after_update(
                old(self)@,
                match key {
                    Some(k) => Some(k@),
                    None => None,
                },
                now_ms as int,
            ),
            r == match key {
                Some(k) => accepts(old(self)@, k@, now_ms as int),
                None => false,
            },
            r ==> final(self)@.opacity == OPACITY_FULL && final(self)@.last_press == now_ms,
            final(self)@.opacity == 0 ==> final(self)@.buffer.len() == 0,
    {
        let accepted = match key {
            Some(k) => self.accept_key(k, now_ms),
            None => false,
        };
        self.tick(now_ms);
        accepted
    }

    /// The shown symbols, oldest first.
    pub fn buffer(&self) -> (r: &Vec<String>)
        ensures
            texts(r@) == self@.buffer,
    {
        &self.buffer
    }

    /// The current opacity, in thousandths.
    pub fn opacity(&self) -> (r: u32)
        ensures
            r == self@.opacity,
    {
        self.opacity
    }

    /// The last accepted raw key, if any.
    pub fn last_key(&self) -> (r: Option<String>)
        ensures
            match r {
                Some(s) => self@.last_key == Some(s@),
                None => self@.last_key.is_none(),
            },
    {
        match &self.last_key {
            Some(s) => Some(s.clone()),
            None => None,
        }
    }

    /// The text to show: the buffer's symbols written one after another.
    pub fn display_text(&self) -> (r: String)
        ensures
            r@ == joined(self@.buffer),
    {
        let mut s = String::new();
        let mut i: usize = 0;
        while i < self.buffer.len()
            invariant
                0 <= i <= self.buffer@.len(),
                s@ == joined(texts(self.buffer@).subrange(0, i as int)),
            decreases self.buffer@.len() - i,
        {
            let ghost pre = texts(self.buffer@).subrange(0, i as int);
            s.append(self.buffer[i].as_str());
            assert(texts(self.buffer@).subrange(0, i + 1).drop_last() =~= pre);
            i += 1;
        }
        assert(texts(self.buffer@).subrange(0, i as int) =~= texts(self.buffer@));
        s
    }

    /// The alpha, out of 255, of the shown text.
    pub fn text_alpha(&self) -> (r: u8)
        requires
            self.wf(),
        ensures
            r as int == self@.opacity * 255 / (OPACITY_FULL as int),
    {
        text_alpha(self.opacity)
    }

    /// The alpha, out of 255, of the background panel.
    pub fn background_alpha(&self) -> (r: u8)
        requires
            self.wf(),
        ensures
            r as int == self@.opacity * 100 / (OPACITY_FULL as int),
    {
        background_alpha(self.opacity)
    }
}

} // verus!
