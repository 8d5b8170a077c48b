//! The formats of the running stream: set when the neighbours have agreed,
//! dropped when the stream stops.

use crate::descriptor::{DescriptorView, FixedCaps, FormatDescriptor};
use crate::format::Layout;
use vstd::prelude::*;

verus! {

/// What a stream state says, as mathematical values.
pub struct StreamStateView {
    pub input: DescriptorView,
    pub output: DescriptorView,
}

impl StreamStateView {
    /// Both descriptors are consistent, and frames come in with three
    /// channels.
    #[verifier::inline]
    pub open spec fn coherent(self) -> bool {
        &&& self.input.consistent()
        &&& self.output.consistent()
        &&& self.input.layout == Layout::ThreeChannelInterleaved
    }

    /// Whether frames go out with the width and height they came in with.
    /// The stage does not scale: it processes no frame of a stream in which
    /// the two differ.
    #[verifier::inline]
    pub open spec fn keeps_size(self) -> bool {
        &&& self.input.width == self.output.width
        &&& self.input.height == self.output.height
    }
}

/// The formats of a configured stream: what comes in and what goes out.
#[derive(Clone, Copy, Debug)]
pub struct StreamState {
    input: FormatDescriptor,
    output: FormatDescriptor,
}

impl View for StreamState {
    type V = StreamStateView;

    closed spec fn view(&self) -> StreamStateView {
        StreamStateView { input: self.input@, output: self.output@ }
    }
}

impl StreamState {
    /// Holds of every stream state that exists at run time.
    #[verifier::type_invariant]
    pub open spec fn well_formed(self) -> bool {
        self@.coherent()
    }

    /// The state of a stream with these two formats. `None` where the input
    /// does not have three channels: the stage takes nothing else.
    pub fn pair(input: FormatDescriptor, output: FormatDescriptor) -> (made: Option<StreamState>)
        ensures
            made is Some <==> (StreamStateView { input: input@, output: output@ }).coherent(),
            made matches Some(state) ==> state@ == (StreamStateView {
                input: input@,
                output: output@,
            }),
    {
        proof {
            use_type_invariant(&input);
            use_type_invariant(&output);
        }
        let three_channels: bool = match input.layout() {
            Layout::ThreeChannelInterleaved => true,
            _ => false,
        };
        if three_channels {
            Some(StreamState { input, output })
        } else {
            None
        }
    }

    /// The format of the frames that come in.
    pub fn input(&self) -> (descriptor: FormatDescriptor)
        ensures
            descriptor@ == self@.input,
    {
        self.input
    }

    /// The format of the frames that go out.
    pub fn output(&self) -> (descriptor: FormatDescriptor)
        ensures
            descriptor@ == self@.output,
    {
        self.output
    }
}

/// Whether a stream can be configured with these caps on its two sides: a
/// descriptor can be made of each, and the input has three channels.
#[verifier::inline]
pub open spec fn configurable(in_caps: FixedCaps, out_caps: FixedCaps) -> bool {
    &&& in_caps.parses()
    &&& out_caps.parses()
    &&& in_caps.layout == Layout::ThreeChannelInterleaved
}

/// The state before any stream is configured.
pub open spec fn unconfigured() -> Option<StreamStateView> {
    None
}

/// The state after an attempt to configure: the new pair of descriptors
/// where the caps allow it, else what was there before.
pub open spec fn after_configure(
    prior: Option<StreamStateView>,
    in_caps: FixedCaps,
    out_caps: FixedCaps,
) -> Option<StreamStateView> {
    if configurable(in_caps, out_caps) {
        Some(StreamStateView { input: in_caps.described(), output: out_caps.described() })
    } else {
        prior
    }
}

/// The state after a stop, whatever was there before.
pub open spec fn after_stop(prior: Option<StreamStateView>) -> Option<StreamStateView> {
    unconfigured()
}

/// Whether a stream is configured, and with which formats.
#[derive(Clone, Copy, Debug)]
pub struct StreamLifecycle {
    state: Option<StreamState>,
}

impl View for StreamLifecycle {
    type V = Option<StreamStateView>;

    closed spec fn view(&self) -> Option<StreamStateView> {
        match self.state {
            Some(state) => Some(state@),
            None => None,
        }
    }
}

impl StreamLifecycle {
    /// A lifecycle in which no stream is configured.
    pub fn new() -> (lifecycle: StreamLifecycle)
        ensures
            lifecycle@ == unconfigured(),
    {
        StreamLifecycle { state: None }
    }

    /// Whether a stream is configured.
    pub fn is_configured(&self) -> (yes: bool)
        ensures
            yes == self@.is_some(),
    {
        self.state.is_some()
    }

    /// The formats of the configured stream, if there is one.
    pub fn state(&self) -> (state: Option<StreamState>)
        ensures
            state is Some <==> self@ is Some,
            state matches Some(s) ==> self@ == Some(s@),
    {
        self.state
    }

    /// Takes the caps that the two neighbours have settled on. Returns
    /// whether a descriptor could be made of each. If so, the pair replaces
    /// whatever was configured before; if not, nothing changes. The input is
    /// taken to have three channels, as every format has that the stage
    /// accepts; caps of another layout are refused like caps that do not
    /// parse.
    pub fn configure(&mut self, in_caps: &FixedCaps, out_caps: &FixedCaps) -> (accepted: bool)
        ensures
            accepted == configurable(*in_caps, *out_caps),
            final(self)@ == after_configure(old(self)@, *in_caps, *out_caps),
    {
        let input: FormatDescriptor = match FormatDescriptor::from_caps(in_caps) {
            Some(descriptor) => descriptor,
            None => {
                return false;
            },
        };
        let output: FormatDescriptor = match FormatDescriptor::from_caps(out_caps) {
            Some(descriptor) => descriptor,
            None => {
                return false;
            },
        };
        match StreamState::pair(input, output) {
            Some(state) => {
                self.state = Some(state);
                true
            },
            None => false,
        }
    }

    /// Drops the state of the stream, if there is one.
    pub fn stop(&mut self)
        ensures
            final(self)@ == after_stop(old(self)@),
    {
        self.state = None;
    }
}

/// Stopping twice in a row leaves the same state as stopping once.
pub proof fn law_stop_is_idempotent(prior: Option<StreamStateView>)
    ensures
        after_stop(after_stop(prior)) == after_stop(prior),
        after_stop(prior) == unconfigured(),
{
}

/// Caps that are refused leave the state as it was; caps that are accepted
/// replace it, whatever it was. With three channels on the input, caps are
/// refused exactly where a descriptor cannot be made of one of them: that
/// the two sides differ in size, or that the output has a layout the stage
/// does not write, is no reason to refuse them.
pub proof fn law_configure_is_all_or_nothing(
    prior: Option<StreamStateView>,
    other: Option<StreamStateView>,
    in_caps: FixedCaps,
    out_caps: FixedCaps,
)
    ensures
        !configurable(in_caps, out_caps) ==> after_configure(prior, in_caps, out_caps) == prior,
        configurable(in_caps, out_caps) ==> after_configure(prior, in_caps, out_caps)
            == after_configure(other, in_caps, out_caps),
        after_configure(prior, in_caps, out_caps) matches Some(state) ==> prior == Some(state)
            || state.coherent(),
        in_caps.layout == Layout::ThreeChannelInterleaved ==> (configurable(in_caps, out_caps)
            <==> in_caps.parses() && out_caps.parses()),
{
}

} // verus!
