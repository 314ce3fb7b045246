//! Which controls a controller has, by kind and index.

use crate::fixed_point::{natural_string, natural_text};
use crate::search::{first_position, lemma_first_position_found, lemma_first_position_none};
use crate::views::{lemma_seq_view_push, option_view, seq_view};
use vstd::prelude::*;

verus! {

/// The kinds of control that a controller reports.
#[derive(Debug, Clone, Copy, PartialEq, Eq, Hash, Structural)]
pub enum SDLControlKind {
    Button,
    Hat,
    Axis,
}

impl SDLControlKind {
    /// The word for the kind.
    pub open spec fn label_text(self) -> Seq<char> {
        match self {
            SDLControlKind::Button => "Button"@,
            SDLControlKind::Hat => "Hat"@,
            SDLControlKind::Axis => "Axis"@,
        }
    }

    /// The word for the kind.
    pub fn label(&self) -> (word: &'static str)
        ensures
            word@ == self.label_text(),
    {
        match self {
            SDLControlKind::Button => "Button",
            SDLControlKind::Hat => "Hat",
            SDLControlKind::Axis => "Axis",
        }
    }
}

/// One control of a controller and the name it goes by.
#[derive(Debug, PartialEq, Eq)]
pub struct ControllerSdlMapControl {
    pub kind: SDLControlKind,
    pub index: u8,
    pub name: String,
}

/// What a [`ControllerSdlMapControl`] holds.
pub struct SdlMapControlModel {
    pub kind: SDLControlKind,
    pub index: int,
    pub name: Seq<char>,
}

impl SdlMapControlModel {
    /// The control of that kind and index under the name it is given when
    /// it is first seen: the word for the kind and then the index.
    pub open spec fn first_seen(kind: SDLControlKind, index: int) -> SdlMapControlModel {
        SdlMapControlModel { kind, index, name: kind.label_text() + natural_text(index as nat) }
    }
}

impl View for ControllerSdlMapControl {
    type V = SdlMapControlModel;

    open spec fn view(&self) -> SdlMapControlModel {
        SdlMapControlModel { kind: self.kind, index: self.index as int, name: self.name@ }
    }
}

impl Clone for ControllerSdlMapControl {
    fn clone(&self) -> (copy: Self)
        ensures
            copy@ == self@,
    {
        ControllerSdlMapControl { kind: self.kind, index: self.index, name: self.name.clone() }
    }
}

impl ControllerSdlMapControl {
    /// The control of that kind and index under the name it is given when
    /// it is first seen.
    pub fn first_seen(kind: SDLControlKind, index: u8) -> (control: ControllerSdlMapControl)
        ensures
            control@ == SdlMapControlModel::first_seen(kind, index as int),
    {
        let mut name = String::from_str(kind.label());
        let number = natural_string(index as u32);
        name.append(number.as_str());
        ControllerSdlMapControl { kind, index, name }
    }
}

/// The controls of one controller.
#[derive(Debug, PartialEq, Eq)]
pub struct ControllerSdlMap {
    pub name: String,
    pub usb_id: String,
    pub data: Vec<ControllerSdlMapControl>,
}

/// What a [`ControllerSdlMap`] holds.
pub struct SdlMapModel {
    pub name: Seq<char>,
    pub usb_id: Seq<char>,
    pub data: Seq<SdlMapControlModel>,
}

/// Whether a control is the one of that kind and index.
pub open spec fn is_control(kind: SDLControlKind, index: int) -> spec_fn(SdlMapControlModel) -> bool {
    |control: SdlMapControlModel| control.kind == kind && control.index == index
}

impl SdlMapModel {
    /// Whether a control of that kind and index is known.
    pub open spec fn has_control(self, kind: SDLControlKind, index: int) -> bool {
        exists|i: int|
            0 <= i < self.data.len() && (#[trigger] self.data[i]).kind == kind && self.data[i].index
                == index
    }

    /// The first control of that kind and index.
    pub open spec fn find_control(self, kind: SDLControlKind, index: int) -> Option<
        SdlMapControlModel,
    > {
        match first_position(self.data, is_control(kind, index)) {
            Some(i) => Some(self.data[i]),
            None => None,
        }
    }

    /// The map after a control of that kind and index was seen: a control
    /// not known before comes last, under the name it is given when first
    /// seen; a known one changes nothing.
    pub open spec fn register(self, kind: SDLControlKind, index: int) -> SdlMapModel {
        if self.has_control(kind, index) {
            self
        } else {
            SdlMapModel {
                name: self.name,
                usb_id: self.usb_id,
                data: self.data.push(SdlMapControlModel::first_seen(kind, index)),
            }
        }
    }
}

impl View for ControllerSdlMap {
    type V = SdlMapModel;

    open spec fn view(&self) -> SdlMapModel {
        SdlMapModel { name: self.name@, usb_id: self.usb_id@, data: seq_view(self.data@) }
    }
}

impl Clone for ControllerSdlMap {
    fn clone(&self) -> (copy: Self)
        ensures
            copy@ == self@,
    {
        let data = self.data.clone();
        assert(seq_view(data@) =~= seq_view(self.data@));
        ControllerSdlMap { name: self.name.clone(), usb_id: self.usb_id.clone(), data }
    }
}

impl ControllerSdlMap {
    /// Whether a control of that kind and index is known.
    pub fn has_control(&self, kind: SDLControlKind, index: u8) -> (known: bool)
        ensures
            known == self@.has_control(kind, index as int),
    {
        let mut i: usize = 0;
        while i < self.data.len()
            invariant
                i <= self.data.len(),
                forall|j: int|
                    0 <= j < i ==> !((#[trigger] self@.data[j]).kind == kind && self@.data[j].index
                        == index),
            decreases self.data.len() - i,
        {
            if self.data[i].kind == kind && self.data[i].index == index {
                assert(self@.data[i as int].kind == kind && self@.data[i as int].index == index);
                return true;
            }
            i += 1;
        }
        false
    }

    /// The first control of that kind and index.
    pub fn find_control(&self, kind: SDLControlKind, index: u8) -> (found: Option<
        &ControllerSdlMapControl,
    >)
        ensures
            option_view(found) == self@.find_control(kind, index as int),
    {
        let ghost wanted = is_control(kind, index as int);
        let mut i: usize = 0;
        while i < self.data.len()
            invariant
                i <= self.data.len(),
                wanted == is_control(kind, index as int),
                forall|j: int| 0 <= j < i ==> !wanted(#[trigger] self@.data[j]),
            decreases self.data.len() - i,
        {
            if self.data[i].kind == kind && self.data[i].index == index {
                proof {
                    lemma_first_position_found(self@.data, wanted, i as int);
                }
                return Some(&self.data[i]);
            }
            i += 1;
        }
        proof {
            lemma_first_position_none(self@.data, wanted);
        }
        None
    }

    /// Takes note of a control that was seen. Says whether it was new.
    pub fn register_control(&mut self, kind: SDLControlKind, index: u8) -> (added: bool)
        ensures
            added == !old(self)@.has_control(kind, index as int),
            final(self)@ == old(self)@.register(kind, index as int),
    {
        if self.has_control(kind, index) {
            false
        } else {
            let control = ControllerSdlMapControl::first_seen(kind, index);
            proof {
                lemma_seq_view_push(self.data@, control);
            }
            self.data.push(control);
            true
        }
    }
}

} // verus!
