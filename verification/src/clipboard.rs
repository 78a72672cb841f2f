//! The clipboard service, bridged to the host clipboard: which calls read
//! or write the host's text, the listeners told of a change, and the
//! checks an incoming `ClipData` has to pass.
use vstd::prelude::*;
use crate::services::{Answer, Payload};
use crate::text::{chars_of, is};

verus! {

/// The `android.content.IClipboard` binder service: the listeners, by the
/// handle the host gave each binder, in the order they came.
pub struct ClipboardService {
    pub listeners: Vec<u64>,
}

/// No listener is held twice.
pub open spec fn listeners_distinct(l: Seq<u64>) -> bool {
    forall|i: int, j: int| 0 <= i < j < l.len() ==> l[i] != l[j]
}

/// The listeners without `b`.
pub open spec fn without(l: Seq<u64>, b: u64) -> Seq<u64> {
    l.filter(|x: u64| x != b)
}

proof fn lemma_without_excludes(l: Seq<u64>, b: u64)
    ensures
        forall|k: int| 0 <= k < without(l, b).len() ==> #[trigger] without(l, b)[k] != b,
    decreases l.len(),
{
    reveal(Seq::filter);
    if l.len() > 0 {
        lemma_without_excludes(l.drop_last(), b);
    }
}

proof fn lemma_without_absent(l: Seq<u64>, b: u64)
    requires
        forall|k: int| 0 <= k < l.len() ==> #[trigger] l[k] != b,
    ensures
        without(l, b) == l,
    decreases l.len(),
{
    reveal(Seq::filter);
    if l.len() > 0 {
        lemma_without_absent(l.drop_last(), b);
        assert(l.drop_last().push(l.last()) =~= l);
    }
}

/// Adding a listener that is already there leaves the list as it was:
/// one copy, last.
pub proof fn law_listener_added_once(l: Seq<u64>, b: u64)
    ensures
        without(without(l, b).push(b), b).push(b) == without(l, b).push(b),
{
    reveal(Seq::filter);
    let w = without(l, b);
    assert(w.push(b).drop_last() =~= w);
    lemma_without_excludes(l, b);
    lemma_without_absent(w, b);
}

pub open spec fn clipboard_answer(name: Seq<char>) -> Answer {
    if name == "setPrimaryClip"@ || name == "setPrimaryClipAsPackage"@ {
        Answer::Payload(Payload::ClipSet)
    } else if name == "clearPrimaryClip"@ {
        Answer::Payload(Payload::ClipCleared)
    } else if name == "getPrimaryClip"@ {
        Answer::Payload(Payload::HostClip)
    } else if name == "getPrimaryClipDescription"@ {
        Answer::Payload(Payload::HostClipDescription)
    } else if name == "hasPrimaryClip"@ || name == "hasClipboardText"@ {
        Answer::Payload(Payload::HasClip)
    } else if name == "addPrimaryClipChangedListener"@ || name == "removePrimaryClipChangedListener"@ {
        Answer::Payload(Payload::ClipListener)
    } else if name == "getPrimaryClipSource"@ {
        Answer::NullText
    } else if name == "areClipboardAccessNotificationsEnabledForUser"@ {
        Answer::Bool(false)
    } else if name == "setClipboardAccessNotificationsEnabledForUser"@ || name == "notifyUserAuthorizedClipAccess"@ {
        Answer::Done
    } else {
        Answer::Refused
    }
}

/// What `hasPrimaryClip` and `hasClipboardText` report for the host's
/// text: any text is a clip; only non-empty text counts as text.
pub open spec fn has_clip_spec(primary: bool, host: Option<Seq<char>>) -> bool {
    match host {
        Some(t) => primary || t.len() > 0,
        None => false,
    }
}

/// Why an incoming `ClipData` was refused.
#[derive(PartialEq, Eq, Debug, Clone, Copy, Structural)]
pub enum ClipError {
    /// A field holds a value the clip cannot have.
    BadValue,
    /// A length runs past the end of the data.
    NotEnoughData,
}

/// `n` rounded up to a multiple of four.
pub open spec fn round4(n: int) -> int {
    ((n + 3) / 4) * 4
}

/// Where reading goes on after a bundle of `len` bytes whose length word
/// ended at `pos` in data of `size` bytes: an empty or absent bundle takes
/// nothing more; otherwise its magic word and padded body.
pub open spec fn bundle_end_spec(pos: int, len: i32, size: int) -> Result<int, ClipError> {
    if len <= 0 {
        Ok(pos)
    } else if pos + 4 + round4(len as int) > usize::MAX {
        Err(ClipError::BadValue)
    } else if pos + 4 + round4(len as int) > size {
        Err(ClipError::NotEnoughData)
    } else {
        Ok(pos + 4 + round4(len as int))
    }
}

impl ClipboardService {
    /// No listeners yet.
    pub fn new() -> (c: ClipboardService)
        ensures
            c.listeners@.len() == 0,
    {
        ClipboardService { listeners: Vec::new() }
    }

    /// How `IClipboard` answers `name`.
    pub fn answer(&self, name: &str) -> (a: Answer)
        ensures
            a == clipboard_answer(name@),
    {
        let n = chars_of(name);
        let n = n.as_slice();
        if is(n, "setPrimaryClip") || is(n, "setPrimaryClipAsPackage") {
            Answer::Payload(Payload::ClipSet)
        } else if is(n, "clearPrimaryClip") {
            Answer::Payload(Payload::ClipCleared)
        } else if is(n, "getPrimaryClip") {
            Answer::Payload(Payload::HostClip)
        } else if is(n, "getPrimaryClipDescription") {
            Answer::Payload(Payload::HostClipDescription)
        } else if is(n, "hasPrimaryClip") || is(n, "hasClipboardText") {
            Answer::Payload(Payload::HasClip)
        } else if is(n, "addPrimaryClipChangedListener") || is(n, "removePrimaryClipChangedListener") {
            Answer::Payload(Payload::ClipListener)
        } else if is(n, "getPrimaryClipSource") {
            Answer::NullText
        } else if is(n, "areClipboardAccessNotificationsEnabledForUser") {
            Answer::Bool(false)
        } else if is(n, "setClipboardAccessNotificationsEnabledForUser") || is(n, "notifyUserAuthorizedClipAccess") {
            Answer::Done
        } else {
            Answer::Refused
        }
    }

    /// The reply of `hasPrimaryClip` (`primary`) or `hasClipboardText` when
    /// the host clipboard holds `host`.
    pub fn has_clip(&self, primary: bool, host: Option<&str>) -> (r: bool)
        ensures
            r == has_clip_spec(primary, match host { Some(t) => Some(t@), None => None }),
    {
        match host {
            Some(t) => primary || t.unicode_len() > 0,
            None => false,
        }
    }

    /// Drops `listener`, wherever it stands.
    pub fn drop_listener(&mut self, listener: u64)
        ensures
            final(self).listeners@ == without(old(self).listeners@, listener),
            listeners_distinct(old(self).listeners@) ==> listeners_distinct(final(self).listeners@),
    {
        let ghost l = self.listeners@;
        let mut kept: Vec<u64> = Vec::new();
        let mut i: usize = 0;
        while i < self.listeners.len()
            invariant
                i <= self.listeners@.len(),
                self.listeners@ == l,
                kept@ == without(l.take(i as int), listener),
                forall|k: int| 0 <= k < kept@.len() ==> exists|j: int| 0 <= j < i && #[trigger] kept@[k] == l[j],
                listeners_distinct(l) ==> listeners_distinct(kept@),
            decreases self.listeners.len() - i,
        {
            let b = self.listeners[i];
            proof {
                reveal(Seq::filter);
                assert(l.take(i + 1).drop_last() =~= l.take(i as int));
                assert(l.take(i + 1).last() == b);
            }
            if b != listener {
                proof {
                    if listeners_distinct(l) {
                        assert forall|k: int| 0 <= k < kept@.len() implies kept@[k] != b by {
                            let j = choose|j: int| 0 <= j < i && kept@[k] == l[j];
                            assert(l[j] != l[i as int]);
                        }
                    }
                }
                kept.push(b);
                proof {
                    assert forall|k: int| 0 <= k < kept@.len() implies exists|j: int| 0 <= j < i + 1 && #[trigger] kept@[k] == l[j] by {
                        if k < kept@.len() - 1 {
                            let j = choose|j: int| 0 <= j < i && kept@[k] == l[j];
                            assert(0 <= j < i + 1 && kept@[k] == l[j]);
                        } else {
                            assert(kept@[k] == l[i as int]);
                        }
                    }
                }
            }
            i = i + 1;
        }
        proof {
            assert(l.take(l.len() as int) =~= l);
        }
        self.listeners = kept;
    }

    /// `addPrimaryClipChangedListener` (`add`) or
    /// `removePrimaryClipChangedListener`: the listener the call carries
    /// leaves the list, and an added one goes last; a call without one
    /// changes nothing.
    pub fn change_listener(&mut self, listener: Option<u64>, add: bool)
        ensures
            final(self).listeners@ == match listener {
                Some(b) => if add { without(old(self).listeners@, b).push(b) } else { without(old(self).listeners@, b) },
                None => old(self).listeners@,
            },
            listeners_distinct(old(self).listeners@) ==> listeners_distinct(final(self).listeners@),
    {
        if let Some(b) = listener {
            self.drop_listener(b);
            if add {
                proof {
                    let w = self.listeners@;
                    assert forall|k: int| 0 <= k < w.len() implies w[k] != b by {
                        lemma_without_excludes(old(self).listeners@, b);
                    }
                }
                self.listeners.push(b);
            }
        }
    }
}

/// Where reading goes on after a bundle; see `bundle_end_spec`.
pub fn bundle_end(pos: usize, len: i32, size: usize) -> (r: Result<usize, ClipError>)
    ensures
        match r {
            Ok(e) => bundle_end_spec(pos as int, len, size as int) == Ok::<int, ClipError>(e as int),
            Err(err) => bundle_end_spec(pos as int, len, size as int) == Err::<int, ClipError>(err),
        },
{
    if len <= 0 {
        return Ok(pos);
    }
    let l = len as usize;
    let t = l + 3;
    let padded = t & !3usize;
    assert(padded == round4(len as int)) by {
        assert(t & !3usize == t - t % 4) by (bit_vector);
        assert(((l + 3) / 4) * 4 == (l + 3) - (l + 3) % 4);
    }
    match pos.checked_add(4 + padded) {
        None => Err(ClipError::BadValue),
        Some(end) => {
            if end > size {
                Err(ClipError::NotEnoughData)
            } else {
                Ok(end)
            }
        },
    }
}

/// A `ClipData` may name at most 128 MIME types.
pub fn mime_count_ok(count: i32) -> (r: bool)
    ensures
        r == (0 <= count <= 128),
{
    0 <= count && count <= 128
}

/// A clip's text item is plain (1) or spanned (0).
pub fn text_kind_ok(kind: i32) -> (r: bool)
    ensures
        r == (kind == 0 || kind == 1),
{
    kind == 0 || kind == 1
}

} // verus!
