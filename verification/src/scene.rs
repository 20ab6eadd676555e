//! What the mouse points at in a scene, and the state of the mouse.

use vstd::prelude::*;
use crate::frp::combinators::source_wired;
use crate::frp::dynamic::Dynamic;
use crate::frp::dynamic::dynamic_at;
use crate::frp::dynamic::dynamic_wired;
use crate::frp::message::MessageType;
use crate::frp::message::Value;
use crate::frp::message::ValueType;
use crate::frp::model::emit_event;
use crate::frp::model::feed_forward;
use crate::frp::network::Network;
use crate::frp::network::Propagation;
use crate::frp::network::same_wiring;
use crate::frp::node::Node;
use crate::frp::node::NodeModel;
use crate::frp::typing::well_typed;

verus! {

/// What the mouse points at: the background, or an instance of a symbol.
#[derive(Clone, Copy, Debug, PartialEq, Eq, Structural)]
pub enum Target {
    Background,
    Symbol { symbol_id: u32, instance_id: u32 },
}

/// The four numbers under which a target is stored in the picture that the
/// renderer draws for finding it again.
#[derive(Clone, Copy, Debug, PartialEq, Eq, Structural)]
pub struct Vector4 {
    pub x: u32,
    pub y: u32,
    pub z: u32,
    pub w: u32,
}

/// The four numbers stand for a target: the third is 0, and the fourth
/// tells the background (0) from a symbol (1).
pub open spec fn is_internal(v: Vector4) -> bool {
    v.z == 0 && (v.w == 0 || v.w == 1)
}

impl Target {
    /// The four numbers that stand for the target.
    pub open spec fn spec_to_internal(self) -> Vector4 {
        match self {
            Target::Background => Vector4 { x: 0, y: 0, z: 0, w: 0 },
            Target::Symbol { symbol_id, instance_id } => Vector4 { x: symbol_id, y: instance_id, z: 0, w: 1 },
        }
    }

    /// The target that the four numbers stand for.
    pub open spec fn spec_from_internal(v: Vector4) -> Target {
        if v.w == 0 {
            Target::Background
        } else {
            Target::Symbol { symbol_id: v.x, instance_id: v.y }
        }
    }

    /// The four numbers that stand for the target.
    pub fn to_internal(&self) -> (r: Vector4)
        ensures
            r == self.spec_to_internal(),
            is_internal(r),
    {
        match self {
            Target::Background => Vector4 { x: 0, y: 0, z: 0, w: 0 },
            Target::Symbol { symbol_id, instance_id } => Vector4 {
                x: *symbol_id,
                y: *instance_id,
                z: 0,
                w: 1,
            },
        }
    }

    /// Whether the four numbers stand for a target.
    pub fn is_internal_format(v: Vector4) -> (r: bool)
        ensures
            r == is_internal(v),
    {
        v.z == 0 && (v.w == 0 || v.w == 1)
    }

    /// The target that the four numbers stand for.
    pub fn from_internal(v: Vector4) -> (r: Self)
        requires
            is_internal(v),
        ensures
            r == Self::spec_from_internal(v),
    {
        if v.w == 0 {
            Target::Background
        } else {
            Target::Symbol { symbol_id: v.x, instance_id: v.y }
        }
    }
}

impl Default for Target {
    /// The target that the mouse points at before it has moved.
    fn default() -> (r: Self)
        ensures
            r == Target::Background,
    {
        Target::Background
    }
}

/// A target that is stored and read again is the same target.
pub proof fn law_target_round_trip(t: Target)
    ensures
        is_internal(t.spec_to_internal()),
        Target::spec_from_internal(t.spec_to_internal()) == t,
{
}

/// Four numbers that stand for a symbol are what the symbol is stored under.
pub proof fn law_internal_round_trip(v: Vector4)
    requires
        is_internal(v),
        v.w == 1,
    ensures
        Target::spec_from_internal(v).spec_to_internal() == v,
{
}

// ---------------------------------------------------------------------------
// Mouse
// ---------------------------------------------------------------------------

/// A point on the canvas, in pixels.
#[derive(Clone, Copy, Debug, PartialEq, Eq, Structural)]
pub struct Vector2 {
    pub x: i32,
    pub y: i32,
}

/// A button of the mouse.
#[derive(Clone, Copy, Debug, PartialEq, Eq, Structural)]
pub enum Button {
    Button0,
    Button1,
    Button2,
    Button3,
    Button4,
}

/// The streams of the mouse in a reactive network.
#[derive(Clone, Copy, Debug, PartialEq, Eq, Structural)]
pub struct MouseFrp {
    pub position: Dynamic,
    pub on_down: Dynamic,
    pub on_up: Dynamic,
}

/// The state of the mouse over a scene: where it is, in pixels of the
/// canvas, which buttons are held, and what it points at.
#[derive(Clone, Copy, Debug, PartialEq, Eq, Structural)]
pub struct Mouse {
    pub position: Vector2,
    pub hover_ids: Vector4,
    pub button0_pressed: bool,
    pub button1_pressed: bool,
    pub button2_pressed: bool,
    pub button3_pressed: bool,
    pub button4_pressed: bool,
    pub target: Target,
    pub frp: MouseFrp,
}

/// The network after the three streams of the mouse were added to it: the
/// position, the pressing and the release of a button, each a source of
/// events with its hold.
pub open spec fn mouse_wired<F, G>(nodes: Seq<NodeModel<F, G>>) -> Seq<NodeModel<F, G>> {
    let n = nodes.len();
    let with_position = dynamic_wired(
        source_wired(nodes, "mouse.position"@, MessageType::Event, ValueType::Position),
        Node { id: n as usize, output: MessageType::Event },
    );
    let with_down = dynamic_wired(
        source_wired(with_position, "mouse.on_down"@, MessageType::Event, ValueType::Unit),
        Node { id: (n + 2) as usize, output: MessageType::Event },
    );
    dynamic_wired(
        source_wired(with_down, "mouse.on_up"@, MessageType::Event, ValueType::Unit),
        Node { id: (n + 4) as usize, output: MessageType::Event },
    )
}

impl Mouse {
    /// The state of the given button.
    pub open spec fn spec_pressed(self, button: Button) -> bool {
        match button {
            Button::Button0 => self.button0_pressed,
            Button::Button1 => self.button1_pressed,
            Button::Button2 => self.button2_pressed,
            Button::Button3 => self.button3_pressed,
            Button::Button4 => self.button4_pressed,
        }
    }

    /// This state with the given button held or not.
    pub open spec fn with_button(self, button: Button, pressed: bool) -> Mouse {
        match button {
            Button::Button0 => Mouse { button0_pressed: pressed, ..self },
            Button::Button1 => Mouse { button1_pressed: pressed, ..self },
            Button::Button2 => Mouse { button2_pressed: pressed, ..self },
            Button::Button3 => Mouse { button3_pressed: pressed, ..self },
            Button::Button4 => Mouse { button4_pressed: pressed, ..self },
        }
    }

    /// The streams of the mouse are nodes of the network.
    pub open spec fn wired_into<F, G>(self, nodes: Seq<NodeModel<F, G>>) -> bool {
        &&& (self.frp.position.event.id as int) < nodes.len()
        &&& (self.frp.on_down.event.id as int) < nodes.len()
        &&& (self.frp.on_up.event.id as int) < nodes.len()
    }

    /// The mouse at rest in the corner of the scene, over the background,
    /// with no button held. Its three streams are added to the network.
    pub fn new<F: Fn(&Value) -> Value, G: Fn(&Value, &Value) -> Value>(net: &mut Network<F, G>) -> (r: Self)
        requires
            old(net).wf(),
        ensures
            final(net).wf(),
            final(net).spec_depth_limit() == old(net).spec_depth_limit(),
            final(net)@ == mouse_wired(old(net)@),
            feed_forward(old(net)@) ==> feed_forward(final(net)@),
            well_typed(old(net)@) ==> well_typed(final(net)@),
            r.wired_into(final(net)@),
            r.position == (Vector2 { x: 0, y: 0 }),
            r.target == Target::Background,
            r.hover_ids == Target::Background.spec_to_internal(),
            forall|button: Button| !r.spec_pressed(button),
            r.frp.position.event.id == old(net)@.len(),
            r.frp.position.behavior.id == old(net)@.len() + 1,
            r.frp.on_down.event.id == old(net)@.len() + 2,
            r.frp.on_down.behavior.id == old(net)@.len() + 3,
            r.frp.on_up.event.id == old(net)@.len() + 4,
            r.frp.on_up.behavior.id == old(net)@.len() + 5,
    {
        let target = Target::default();
        let position = Dynamic::source(net, "mouse.position", ValueType::Position);
        proof {
            net.lemma_len_bounded();
        }
        let on_down = Dynamic::source(net, "mouse.on_down", ValueType::Unit);
        proof {
            net.lemma_len_bounded();
        }
        let on_up = Dynamic::source(net, "mouse.on_up", ValueType::Unit);
        proof {
            net.lemma_len_bounded();
        }
        Mouse {
            position: Vector2 { x: 0, y: 0 },
            hover_ids: target.to_internal(),
            button0_pressed: false,
            button1_pressed: false,
            button2_pressed: false,
            button3_pressed: false,
            button4_pressed: false,
            target,
            frp: MouseFrp { position, on_down, on_up },
        }
    }

    /// Whether the given button is held.
    pub fn pressed(&self, button: Button) -> (r: bool)
        ensures
            r == self.spec_pressed(button),
    {
        match button {
            Button::Button0 => self.button0_pressed,
            Button::Button1 => self.button1_pressed,
            Button::Button2 => self.button2_pressed,
            Button::Button3 => self.button3_pressed,
            Button::Button4 => self.button4_pressed,
        }
    }

    /// The mouse has moved. `offset_x` and `offset_y` tell where it is over
    /// the scene, in pixels of the screen, of which each is `pixel_ratio`
    /// pixels of the canvas wide; `client_x` and `client_y` tell where it is
    /// in the window. The position on the canvas is stored, and the position
    /// in the window is sent to the network.
    pub fn on_move<F: Fn(&Value) -> Value, G: Fn(&Value, &Value) -> Value>(
        &mut self,
        net: &mut Network<F, G>,
        pixel_ratio: i32,
        offset_x: i32,
        offset_y: i32,
        client_x: i32,
        client_y: i32,
    ) -> (r: Propagation)
        requires
            old(net).wf(),
            old(self).wired_into(old(net)@),
            i32::MIN <= pixel_ratio * offset_x <= i32::MAX,
            i32::MIN <= pixel_ratio * offset_y <= i32::MAX,
        ensures
            final(net).wf(),
            same_wiring(old(net)@, final(net)@),
            final(net).spec_depth_limit() == old(net).spec_depth_limit(),
            *final(self) == (Mouse {
                position: Vector2 { x: (pixel_ratio * offset_x) as i32, y: (pixel_ratio * offset_y) as i32 },
                ..*old(self)
            }),
            ({
                let o = emit_event(
                    old(net)@,
                    old(self).frp.position.event.id as int,
                    Value::Position { x: client_x, y: client_y },
                    old(net).spec_depth_limit() as nat,
                );
                &&& final(net)@ == o.nodes
                &&& r.emissions@ == o.emissions
                &&& r.status == o.status
            }),
    {
        let canvas_x = pixel_ratio * offset_x;
        let canvas_y = pixel_ratio * offset_y;
        self.position = Vector2 { x: canvas_x, y: canvas_y };
        net.propagate(self.frp.position.event.id, Value::Position { x: client_x, y: client_y })
    }

    /// A button was pressed. The button is held from now on, and the
    /// network is told that a button was pressed.
    pub fn on_down<F: Fn(&Value) -> Value, G: Fn(&Value, &Value) -> Value>(
        &mut self,
        net: &mut Network<F, G>,
        button: Button,
    ) -> (r: Propagation)
        requires
            old(net).wf(),
            old(self).wired_into(old(net)@),
        ensures
            final(net).wf(),
            same_wiring(old(net)@, final(net)@),
            final(net).spec_depth_limit() == old(net).spec_depth_limit(),
            *final(self) == old(self).with_button(button, true),
            ({
                let o = emit_event(
                    old(net)@,
                    old(self).frp.on_down.event.id as int,
                    Value::Unit,
                    old(net).spec_depth_limit() as nat,
                );
                &&& final(net)@ == o.nodes
                &&& r.emissions@ == o.emissions
                &&& r.status == o.status
            }),
    {
        self.set_button(button, true);
        net.propagate(self.frp.on_down.event.id, Value::Unit)
    }

    /// A button was released. The button is no longer held, and the network
    /// is told that a button was released.
    pub fn on_up<F: Fn(&Value) -> Value, G: Fn(&Value, &Value) -> Value>(
        &mut self,
        net: &mut Network<F, G>,
        button: Button,
    ) -> (r: Propagation)
        requires
            old(net).wf(),
            old(self).wired_into(old(net)@),
        ensures
            final(net).wf(),
            same_wiring(old(net)@, final(net)@),
            final(net).spec_depth_limit() == old(net).spec_depth_limit(),
            *final(self) == old(self).with_button(button, false),
            ({
                let o = emit_event(
                    old(net)@,
                    old(self).frp.on_up.event.id as int,
                    Value::Unit,
                    old(net).spec_depth_limit() as nat,
                );
                &&& final(net)@ == o.nodes
                &&& r.emissions@ == o.emissions
                &&& r.status == o.status
            }),
    {
        self.set_button(button, false);
        net.propagate(self.frp.on_up.event.id, Value::Unit)
    }

    /// Stores the numbers that the renderer has found under the mouse.
    pub fn set_hover_ids(&mut self, hover_ids: Vector4)
        ensures
            *final(self) == (Mouse { hover_ids, ..*old(self) }),
    {
        self.hover_ids = hover_ids;
    }

    /// Looks at what the renderer has found under the mouse. Where this is
    /// another target than the mouse pointed at before, the new target is
    /// stored, and if it is a symbol, it is returned: the symbol has to be
    /// told that the mouse has come to it. The numbers under the mouse have
    /// to stand for a target.
    pub fn handle_mouse_events(&mut self) -> (r: Option<Target>)
        requires
            is_internal(old(self).hover_ids),
        ensures
            *final(self) == (Mouse { target: Target::spec_from_internal(old(self).hover_ids), ..*old(self) }),
            r == (if Target::spec_from_internal(old(self).hover_ids) != old(self).target
                && Target::spec_from_internal(old(self).hover_ids) is Symbol {
                Some(Target::spec_from_internal(old(self).hover_ids))
            } else {
                None
            }),
    {
        let target = Target::from_internal(self.hover_ids);
        if target != self.target {
            self.target = target;
            match target {
                Target::Background => None,
                Target::Symbol { .. } => Some(target),
            }
        } else {
            None
        }
    }

    /// Stores what the mouse points at, under the numbers that stand for it.
    pub fn set_target(&mut self, target: Target)
        ensures
            *final(self) == (Mouse { target, hover_ids: target.spec_to_internal(), ..*old(self) }),
    {
        self.target = target;
        self.hover_ids = target.to_internal();
    }

    /// Stores whether a button is held.
    fn set_button(&mut self, button: Button, pressed: bool)
        ensures
            *final(self) == old(self).with_button(button, pressed),
    {
        match button {
            Button::Button0 => {
                self.button0_pressed = pressed;
            },
            Button::Button1 => {
                self.button1_pressed = pressed;
            },
            Button::Button2 => {
                self.button2_pressed = pressed;
            },
            Button::Button3 => {
                self.button3_pressed = pressed;
            },
            Button::Button4 => {
                self.button4_pressed = pressed;
            },
        }
    }
}

/// A button is held exactly from the time it was pressed until it is
/// released; the other buttons are as they were.
pub proof fn law_buttons_are_independent(mouse: Mouse, button: Button, other: Button, pressed: bool)
    ensures
        mouse.with_button(button, pressed).spec_pressed(button) == pressed,
        other != button ==> mouse.with_button(button, pressed).spec_pressed(other) == mouse.spec_pressed(other),
{
}

} // verus!
