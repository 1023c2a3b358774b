//! The shared state blob: one plain record owned by the registry, read by
//! every plugin during a dispatch pass. The host mutates it only through
//! the narrow setters here; a plugin only through the unmount and lock
//! flags.

use vstd::prelude::*;
use crate::persona::{Persona, Position, Sheet, Tuple};
use crate::tooltip::{Character, Relative, Tooltip};

verus! {

/// The record shared with every plugin: the persona, the tooltip and the
/// two lifecycle flags. A flag is a byte: zero means unset.
#[derive(Clone, Debug)]
pub struct LibraryState {
    /// The persona.
    pub persona: Persona,
    /// The tooltip.
    pub tooltip: Tooltip,
    /// Set by a plugin that asks to be unmounted after the current pass.
    pub unmount: u8,
    /// Set by a plugin that asks the host to drop terminal input.
    pub lock: u8,
}

impl LibraryState {
    /// The fixed-capacity parts keep their dimensions.
    pub open spec fn wf(&self) -> bool {
        self.persona.wf() && self.tooltip.wf()
    }

    /// Whether the unmount flag is set.
    pub open spec fn spec_is_unmounted(&self) -> bool {
        self.unmount != 0
    }

    /// Whether the lock flag is set.
    pub open spec fn spec_is_locked(&self) -> bool {
        self.lock != 0
    }

    /// Whether a plugin asked to be unmounted.
    pub fn is_unmounted(&self) -> (r: bool)
        ensures
            r == self.spec_is_unmounted(),
    {
        self.unmount != 0
    }

    /// Whether a plugin asked the host to drop terminal input.
    pub fn is_locked(&self) -> (r: bool)
        ensures
            r == self.spec_is_locked(),
    {
        self.lock != 0
    }

    /// The selected sheet.
    pub fn get_sheet(&self) -> (r: &Sheet)
        ensures
            *r == self.persona.spec_sheet(),
    {
        self.persona.get_sheet()
    }

    /// The tooltip.
    pub fn get_tooltip(&self) -> (r: &Tooltip)
        ensures
            *r == self.tooltip,
    {
        &self.tooltip
    }

    /// The persona.
    pub fn get_persona(&self) -> (r: &Persona)
        ensures
            *r == self.persona,
    {
        &self.persona
    }

    /// The persona's position.
    pub fn get_position(&self) -> (r: &Position)
        ensures
            *r == self.persona.spec_position(),
    {
        self.persona.get_position()
    }

    /// The emotion grid.
    pub fn get_emotion(&self) -> (r: &Vec<Vec<Tuple>>)
        ensures
            r@.map_values(|row: Vec<Tuple>| row@) == self.persona.spec_emotion(),
    {
        self.persona.get_emotion()
    }

    /// Writes `message` into the tooltip buffer, as
    /// `Tooltip::set_message` does.
    pub fn set_tooltip_message(&mut self, message: String)
        requires
            old(self).wf(),
        ensures
            final(self).wf(),
            final(self).persona == old(self).persona,
            final(self).unmount == old(self).unmount,
            final(self).lock == old(self).lock,
            final(self).tooltip.cardinal == old(self).tooltip.cardinal,
            forall|i: int| 0 <= i < crate::tooltip::SPEC_MESSAGE
                ==> #[trigger] final(self).tooltip.message@[i] == (Character {
                    glyph: if i < message@.len() {
                        message@[i]
                    } else {
                        '\0'
                    },
                }),
    {
        self.tooltip.set_message(message);
    }

    /// Moves the tooltip to a side of the persona.
    pub fn set_tooltip_cardinal(&mut self, cardinal: Relative)
        ensures
            final(self).tooltip.cardinal == cardinal,
            final(self).tooltip.message == old(self).tooltip.message,
            final(self).persona == old(self).persona,
            final(self).unmount == old(self).unmount,
            final(self).lock == old(self).lock,
    {
        self.tooltip.set_cardinal(cardinal);
    }

    /// Selects the persona's sheet.
    pub fn set_persona_sheet(&mut self, sheet: Sheet)
        ensures
            final(self).persona.sheet == sheet,
            final(self).persona.emotion == old(self).persona.emotion,
            final(self).persona.position == old(self).persona.position,
            final(self).tooltip == old(self).tooltip,
            final(self).unmount == old(self).unmount,
            final(self).lock == old(self).lock,
    {
        self.persona.set_sheet(sheet);
    }

    /// Moves the persona.
    pub fn set_persona_position(&mut self, position: Position)
        ensures
            final(self).persona.position == position,
            final(self).persona.sheet == old(self).persona.sheet,
            final(self).persona.emotion == old(self).persona.emotion,
            final(self).tooltip == old(self).tooltip,
            final(self).unmount == old(self).unmount,
            final(self).lock == old(self).lock,
    {
        self.persona.set_position(position);
    }

    /// Writes the unmount flag byte, as a plugin does through the shared
    /// blob.
    pub fn set_unmount_flag(&mut self, value: u8)
        ensures
            final(self).unmount == value,
            final(self).persona == old(self).persona,
            final(self).tooltip == old(self).tooltip,
            final(self).lock == old(self).lock,
    {
        self.unmount = value;
    }

    /// Writes the lock flag byte, as a plugin does through the shared
    /// blob.
    pub fn set_lock_flag(&mut self, value: u8)
        ensures
            final(self).lock == value,
            final(self).persona == old(self).persona,
            final(self).tooltip == old(self).tooltip,
            final(self).unmount == old(self).unmount,
    {
        self.lock = value;
    }

    /// Writes the whole persona back, as the host does after a plugin
    /// call returned a changed blob.
    pub fn set_persona(&mut self, persona: Persona)
        requires
            persona.wf(),
        ensures
            final(self).persona == persona,
            final(self).tooltip == old(self).tooltip,
            final(self).unmount == old(self).unmount,
            final(self).lock == old(self).lock,
    {
        self.persona = persona;
    }
}

impl Default for LibraryState {
    /// The empty blob: default persona and tooltip, both flags unset.
    fn default() -> (r: Self)
        ensures
            r.wf(),
            r.unmount == 0,
            r.lock == 0,
            r.persona.spec_sheet() == Sheet::Empty,
            r.tooltip.cardinal == Relative::Left,
    {
        LibraryState {
            persona: Persona::default(),
            tooltip: Tooltip::default(),
            unmount: 0,
            lock: 0,
        }
    }
}

} // verus!
