//! The hotkey detector: which keys are held, and when the combo fires.
use vstd::prelude::*;
use crate::config::{
    key_named, names_modifier, texts, upper_of, HotkeyConfig, KeyCode,
};
use crate::error::StickyError;
use crate::text::chars_of;

verus! {

/// The keys held after `key` went down (`is_press`) or up.
pub open spec fn held_after(held: Set<KeyCode>, key: KeyCode, is_press: bool) -> Set<KeyCode> {
    if is_press {
        held.insert(key)
    } else {
        held.remove(key)
    }
}

/// The combo fires on a press of the trigger while every modifier is held.
pub open spec fn fires(
    modifiers: Set<KeyCode>,
    trigger: KeyCode,
    held: Set<KeyCode>,
    key: KeyCode,
    is_press: bool,
) -> bool {
    is_press && key == trigger && modifiers.subset_of(held)
}

/// Merges key events from every device and reports each firing of the combo.
pub struct HotkeyListener {
    modifiers: Vec<KeyCode>,
    trigger_key: KeyCode,
    pressed: Vec<KeyCode>,
}

impl HotkeyListener {
    /// The configured modifier keys.
    pub closed spec fn modifier_set(&self) -> Set<KeyCode> {
        self.modifiers@.to_set()
    }

    /// The configured trigger key.
    pub closed spec fn trigger(&self) -> KeyCode {
        self.trigger_key
    }

    /// The keys held now.
    pub closed spec fn held(&self) -> Set<KeyCode> {
        self.pressed@.to_set()
    }

    pub closed spec fn wf(&self) -> bool {
        self.pressed@.no_duplicates()
    }

    /// A detector for the configured combo, with no key held. Fails when the
    /// trigger name denotes no key, or when no modifier name denotes a key.
    pub fn new(config: &HotkeyConfig) -> (r: Result<HotkeyListener, StickyError>)
        ensures
            key_named(upper_of(config.key@)) is None ==> (r matches Err(
                StickyError::InvalidTriggerKey(name),
            ) && name@ == config.key@),
            key_named(upper_of(config.key@)) is Some && !(exists|k: KeyCode|
                names_modifier(texts(config.modifiers@), k)) ==> r == Err::<
                HotkeyListener,
                StickyError,
            >(StickyError::NoModifiers),
            r matches Ok(l) ==> {
                &&& l.wf()
                &&& Some(l.trigger()) == key_named(upper_of(config.key@))
                &&& forall|k: KeyCode|
                    l.modifier_set().contains(k) <==> names_modifier(texts(config.modifiers@), k)
                &&& l.modifier_set() != Set::<KeyCode>::empty()
                &&& l.held() == Set::<KeyCode>::empty()
            },
            r is Ok <==> (key_named(upper_of(config.key@)) is Some && exists|k: KeyCode|
                names_modifier(texts(config.modifiers@), k)),
    {
        let modifiers = config.modifier_keys();
        let trigger_key = match config.trigger_key() {
            Some(k) => k,
            None => {
                return Err(StickyError::InvalidTriggerKey(config.key.clone()));
            },
        };
        if modifiers.len() == 0 {
            proof {
                assert forall|k: KeyCode| !names_modifier(texts(config.modifiers@), k) by {
                    if names_modifier(texts(config.modifiers@), k) {
                        assert(modifiers@.contains(k));
                    }
                }
            }
            return Err(StickyError::NoModifiers);
        }
        let pressed: Vec<KeyCode> = Vec::new();
        let l = HotkeyListener { modifiers, trigger_key, pressed };
        proof {
            let k = modifiers@[0];
            assert(modifiers@.contains(k));
            assert(l.modifier_set().contains(k));
            assert forall|k: KeyCode|
                l.modifier_set().contains(k) <==> names_modifier(
                    texts(config.modifiers@),
                    k,
                ) by {
                assert(l.modifier_set().contains(k) <==> modifiers@.contains(k));
            }
            assert(l.held() =~= Set::<KeyCode>::empty());
        }
        Ok(l)
    }

    /// Takes one key event from any device: `key` went down (`is_press`) or
    /// up. Returns whether the combo fired.
    pub fn on_key(&mut self, key: KeyCode, is_press: bool) -> (r: bool)
        requires
            old(self).wf(),
        ensures
            final(self).wf(),
            final(self).modifier_set() == old(self).modifier_set(),
            final(self).trigger() == old(self).trigger(),
            final(self).held() == held_after(old(self).held(), key, is_press),
            r == fires(old(self).modifier_set(), old(self).trigger(), final(self).held(), key, is_press),
    {
        let ghost old_pressed = self.pressed@;
        let pos = position_of(&self.pressed, key);
        if is_press {
            if pos.is_none() {
                self.pressed.push(key);
                proof {
                    assert(self.pressed@ == old_pressed.push(key));
                    assert forall|i: int, j: int|
                        0 <= i < j < self.pressed@.len() implies self.pressed@[i]
                        != self.pressed@[j] by {
                        if j == old_pressed.len() {
                            assert(old_pressed[i] != key);
                        }
                    }
                    assert forall|k: KeyCode| self.pressed@.contains(k)
                        <==> old_pressed.to_set().insert(key).contains(k) by {
                        if old_pressed.contains(k) {
                            let t = choose|t: int| 0 <= t < old_pressed.len() && old_pressed[t] == k;
                            assert(self.pressed@[t] == k);
                        }
                        if k == key {
                            assert(self.pressed@[old_pressed.len() as int] == k);
                        }
                        if self.pressed@.contains(k) && k != key {
                            let t = choose|t: int| 0 <= t < self.pressed@.len() && self.pressed@[t] == k;
                            assert(old_pressed[t] == k);
                        }
                    }
                    assert(self.pressed@.to_set() =~= old_pressed.to_set().insert(key));
                }
            } else {
                assert(old_pressed.to_set() =~= old_pressed.to_set().insert(key));
            }
        } else {
            match pos {
                Some(i) => {
                    self.pressed.remove(i);
                    proof {
                        let now = self.pressed@;
                        assert(now =~= old_pressed.remove(i as int));
                        assert forall|a: int, b: int| 0 <= a < b < now.len() implies now[a]
                            != now[b] by {
                            let oa = if a < i { a } else { a + 1 };
                            let ob = if b < i { b } else { b + 1 };
                            assert(now[a] == old_pressed[oa] && now[b] == old_pressed[ob]);
                        }
                        assert forall|k: KeyCode| now.to_set().contains(k)
                            <==> old_pressed.to_set().remove(key).contains(k) by {
                            if now.contains(k) {
                                let t = choose|t: int| 0 <= t < now.len() && now[t] == k;
                                let ot = if t < i { t } else { t + 1 };
                                assert(old_pressed[ot] == k);
                                assert(ot != i);
                            }
                            if old_pressed.contains(k) && k != key {
                                let t = choose|t: int| 0 <= t < old_pressed.len() && old_pressed[t] == k;
                                assert(t != i);
                                if t < i {
                                    assert(now[t] == k);
                                } else {
                                    assert(now[t - 1] == k);
                                }
                            }
                        }
                        assert(now.to_set() =~= old_pressed.to_set().remove(key));
                    }
                },
                None => {
                    assert(old_pressed.to_set() =~= old_pressed.to_set().remove(key));
                },
            }
        }
        if !is_press || key != self.trigger_key {
            return false;
        }
        let ghost pressed_now = self.pressed@;
        let mut j: usize = 0;
        while j < self.modifiers.len()
            invariant
                0 <= j <= self.modifiers@.len(),
                self.modifiers@ == old(self).modifiers@,
                self.trigger_key == old(self).trigger_key,
                self.pressed@ == pressed_now,
                self.held() == held_after(old(self).held(), key, is_press),
                self.pressed@.no_duplicates(),
                forall|t: int| 0 <= t < j ==> self.pressed@.contains(#[trigger] self.modifiers@[t]),
            decreases self.modifiers.len() - j,
        {
            if position_of(&self.pressed, self.modifiers[j]).is_none() {
                assert(self.modifier_set().contains(self.modifiers@[j as int]));
                assert(!self.held().contains(self.modifiers@[j as int]));
                return false;
            }
            j = j + 1;
        }
        proof {
            assert forall|k: KeyCode| self.modifier_set().contains(k) implies self.held().contains(k) by {
                let t = choose|t: int| 0 <= t < self.modifiers@.len() && self.modifiers@[t] == k;
                assert(self.pressed@.contains(self.modifiers@[t]));
            }
        }
        true
    }
}

/// Where `key` stands in `keys`, if it does.
fn position_of(keys: &Vec<KeyCode>, key: KeyCode) -> (r: Option<usize>)
    ensures
        match r {
            Some(i) => i < keys@.len() && keys@[i as int] == key,
            None => !keys@.contains(key),
        },
{
    let mut i: usize = 0;
    while i < keys.len()
        invariant
            0 <= i <= keys@.len(),
            forall|t: int| 0 <= t < i ==> keys@[t] != key,
        decreases keys.len() - i,
    {
        if keys[i] == key {
            return Some(i);
        }
        i = i + 1;
    }
    None
}

/// What a key event value means: 1 is a press, 0 a release; anything else
/// (an auto-repeat) is not a change.
pub fn key_transition(value: i32) -> (r: Option<bool>)
    ensures
        r == (if value == 1 {
            Some(true)
        } else if value == 0 {
            Some(false)
        } else {
            None
        }),
{
    if value == 1 {
        Some(true)
    } else if value == 0 {
        Some(false)
    } else {
        None
    }
}

/// Whether a file name under the input directory is an event node: it starts
/// with `event`.
pub fn is_event_node(name: &str) -> (r: bool)
    ensures
        r == (name@.len() >= 5 && name@.subrange(0, 5) == "event"@),
{
    proof {
        reveal_strlit("event");
    }
    let c = chars_of(name);
    if c.len() < 5 {
        return false;
    }
    let r = c[0] == 'e' && c[1] == 'v' && c[2] == 'e' && c[3] == 'n' && c[4] == 't';
    proof {
        let head = name@.subrange(0, 5);
        if r {
            assert(head =~= "event"@);
        } else if head == "event"@ {
            assert(head[0] == 'e' && head[1] == 'v' && head[2] == 'e' && head[3] == 'n'
                && head[4] == 't');
        }
    }
    r
}

} // verus!
