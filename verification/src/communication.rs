//! Transmit and receive transfer management around one shared serial link:
//! the bounded outbound buffer, the pin bitset, the double-state transmit
//! transfer and the receive accumulator with idle-timeout framing.

use vstd::prelude::*;

use crate::codec::enc_bool;
use crate::codec::enc_u16;
use crate::codec::enc_u32;
use crate::codec::enc_u64;
use crate::debug_led::DebugLed;
use crate::errors::Error;
use crate::frame::frame_bytes;
use crate::codec::enc_result;
use crate::pwm_service::PwmChannels;
use crate::server::spec_idle;
use crate::server::Server;
use crate::storage::Storage;
use vstd::string::StringSliceAdditionalSpecFns;

verus! {

/// A bounded byte buffer that backs one outbound transfer. Appends that
/// would exceed the capacity fail with `DmaBufferOverflow` and leave the
/// contents unchanged.
#[derive(Debug)]
pub struct Buffer {
    data: Vec<u8>,
    capacity: usize,
}

impl View for Buffer {
    type V = Seq<u8>;

    closed spec fn view(&self) -> Seq<u8> {
        self.data@
    }
}

impl Buffer {
    /// The fixed capacity this buffer was created with.
    pub closed spec fn spec_capacity(self) -> usize {
        self.capacity
    }

    /// The buffer never holds more than its capacity.
    pub closed spec fn wf(self) -> bool {
        self.data@.len() <= self.capacity
    }

    /// An empty buffer of the given capacity.
    pub fn new(capacity: usize) -> (r: Buffer)
        ensures
            r.wf(),
            r@ == Seq::<u8>::empty(),
            r.spec_capacity() == capacity,
    {
        Buffer { data: Vec::new(), capacity }
    }

    /// Give up the buffer and hand back its contents.
    pub fn free(self) -> (r: Vec<u8>)
        ensures
            r@ == self@,
    {
        self.data
    }

    /// Read access to the accumulated bytes.
    pub fn contents(&self) -> (r: &[u8])
        ensures
            r@ == self@,
    {
        self.data.as_slice()
    }

    /// The number of accumulated bytes.
    pub fn len(&self) -> (r: usize)
        ensures
            r == self@.len(),
    {
        self.data.len()
    }

    /// Append raw bytes.
    pub fn add(&mut self, data: &[u8]) -> (r: Result<(), Error>)
        requires
            old(self).wf(),
        ensures
            final(self).wf(),
            final(self).spec_capacity() == old(self).spec_capacity(),
            match r {
                Ok(()) => old(self)@.len() + data@.len() <= old(self).spec_capacity()
                    && final(self)@ == old(self)@ + data@,
                Err(e) => e == Error::DmaBufferOverflow && old(self)@.len() + data@.len() > old(self).spec_capacity() && *final(self) == *old(self),
            },
    {
        if data.len() > self.capacity - self.data.len() {
            return Err(Error::DmaBufferOverflow);
        }
        self.data.extend_from_slice(data);
        Ok(())
    }

    /// Append the bytes of a UTF-8 string.
    pub fn add_str(&mut self, string: &str) -> (r: Result<(), Error>)
        requires
            old(self).wf(),
        ensures
            final(self).wf(),
            final(self).spec_capacity() == old(self).spec_capacity(),
            match r {
                Ok(()) => old(self)@.len() + string.spec_bytes().len() <= old(self).spec_capacity() && final(self)@ == old(self)@ + string.spec_bytes(),
                Err(e) => e == Error::DmaBufferOverflow && old(self)@.len()
                    + string.spec_bytes().len() > old(self).spec_capacity() && *final(self)
                    == *old(self),
            },
    {
        self.add(string.as_bytes())
    }

    /// Append one boolean byte.
    pub fn add_bool(&mut self, value: bool) -> (r: Result<(), Error>)
        requires
            old(self).wf(),
        ensures
            final(self).wf(),
            final(self).spec_capacity() == old(self).spec_capacity(),
            match r {
                Ok(()) => old(self)@.len() + 1 <= old(self).spec_capacity() && final(self)@ == old(self)@ + enc_bool(value),
                Err(e) => e == Error::DmaBufferOverflow && old(self)@.len() + 1 > old(self).spec_capacity() && *final(self) == *old(self),
            },
    {
        if self.data.len() >= self.capacity {
            return Err(Error::DmaBufferOverflow);
        }
        self.data.push(if value { 1u8 } else { 0u8 });
        proof {
            assert(self@ =~= old(self)@ + enc_bool(value));
        }
        Ok(())
    }

    /// Append one byte.
    pub fn add_u8(&mut self, byte: u8) -> (r: Result<(), Error>)
        requires
            old(self).wf(),
        ensures
            final(self).wf(),
            final(self).spec_capacity() == old(self).spec_capacity(),
            match r {
                Ok(()) => old(self)@.len() + 1 <= old(self).spec_capacity() && final(self)@ == old(self)@ + seq![byte],
                Err(e) => e == Error::DmaBufferOverflow && old(self)@.len() + 1 > old(self).spec_capacity() && *final(self) == *old(self),
            },
    {
        if self.data.len() >= self.capacity {
            return Err(Error::DmaBufferOverflow);
        }
        self.data.push(byte);
        proof {
            assert(self@ =~= old(self)@ + seq![byte]);
        }
        Ok(())
    }

    /// Append a big-endian 16-bit word.
    pub fn add_u16(&mut self, value: u16) -> (r: Result<(), Error>)
        requires
            old(self).wf(),
        ensures
            final(self).wf(),
            final(self).spec_capacity() == old(self).spec_capacity(),
            match r {
                Ok(()) => old(self)@.len() + 2 <= old(self).spec_capacity() && final(self)@ == old(self)@ + enc_u16(value),
                Err(e) => e == Error::DmaBufferOverflow && old(self)@.len() + 2 > old(self).spec_capacity() && *final(self) == *old(self),
            },
    {
        let bytes: [u8; 2] = [(value / 0x100) as u8, (value % 0x100) as u8];
        let r = self.add(bytes.as_slice());
        proof {
            assert(bytes@ =~= enc_u16(value));
        }
        r
    }

    /// Append a big-endian 32-bit word.
    pub fn add_u32(&mut self, value: u32) -> (r: Result<(), Error>)
        requires
            old(self).wf(),
        ensures
            final(self).wf(),
            final(self).spec_capacity() == old(self).spec_capacity(),
            match r {
                Ok(()) => old(self)@.len() + 4 <= old(self).spec_capacity() && final(self)@ == old(self)@ + enc_u32(value),
                Err(e) => e == Error::DmaBufferOverflow && old(self)@.len() + 4 > old(self).spec_capacity() && *final(self) == *old(self),
            },
    {
        let bytes: [u8; 4] = [
            (value / 0x100_0000) as u8,
            ((value / 0x1_0000) % 0x100) as u8,
            ((value / 0x100) % 0x100) as u8,
            (value % 0x100) as u8,
        ];
        let r = self.add(bytes.as_slice());
        proof {
            assert(bytes@ =~= enc_u32(value));
        }
        r
    }

    /// Append a big-endian 64-bit word.
    pub fn add_u64(&mut self, value: u64) -> (r: Result<(), Error>)
        requires
            old(self).wf(),
        ensures
            final(self).wf(),
            final(self).spec_capacity() == old(self).spec_capacity(),
            match r {
                Ok(()) => old(self)@.len() + 8 <= old(self).spec_capacity() && final(self)@ == old(self)@ + enc_u64(value),
                Err(e) => e == Error::DmaBufferOverflow && old(self)@.len() + 8 > old(self).spec_capacity() && *final(self) == *old(self),
            },
    {
        let bytes: [u8; 8] = [
            (value / 0x100_0000_0000_0000) as u8,
            ((value / 0x1_0000_0000_0000) % 0x100) as u8,
            ((value / 0x100_0000_0000) % 0x100) as u8,
            ((value / 0x1_0000_0000) % 0x100) as u8,
            ((value / 0x100_0000) % 0x100) as u8,
            ((value / 0x1_0000) % 0x100) as u8,
            ((value / 0x100) % 0x100) as u8,
            (value % 0x100) as u8,
        ];
        let r = self.add(bytes.as_slice());
        proof {
            assert(bytes@ =~= enc_u64(value));
        }
        r
    }

    /// Drop the accumulated bytes.
    pub fn clear(&mut self)
        ensures
            final(self).wf(),
            final(self)@ == Seq::<u8>::empty(),
            final(self).spec_capacity() == old(self).spec_capacity(),
    {
        self.data.clear();
    }
}

/// The shared pin bitset: one bit per pin, mutated by both the legacy byte
/// path and the structured pin commands.
#[derive(Clone, Copy, PartialEq, Eq, Structural, Debug)]
pub struct LedState(pub u8);

/// Whether bit `num` of `mask` is set.
pub open spec fn led_bit(mask: u8, num: u8) -> bool {
    mask & (1u8 << num) != 0
}

/// The bitset with bit `num` driven to `high`.
pub open spec fn spec_set_bit(mask: u8, num: u8, high: bool) -> u8 {
    if high {
        mask | (1u8 << num)
    } else {
        mask & !(1u8 << num)
    }
}

/// Setting one bit high changes exactly that bit.
proof fn lemma_set_bit_high(mask: u8, num: u8)
    by (bit_vector)
    requires
        num < 8,
    ensures
        forall|k: u8|
            k < 8 ==> #[trigger] led_bit(mask | (1u8 << num), k) == (k == num || led_bit(mask, k)),
{
}

/// Setting one bit low changes exactly that bit.
proof fn lemma_set_bit_low(mask: u8, num: u8)
    by (bit_vector)
    requires
        num < 8,
    ensures
        forall|k: u8|
            k < 8 ==> #[trigger] led_bit(mask & !(1u8 << num), k) == (k != num && led_bit(mask, k)),
{
}

/// Flipping one bit changes exactly that bit.
proof fn lemma_toggle_bit(mask: u8, num: u8)
    by (bit_vector)
    requires
        num < 8,
    ensures
        forall|k: u8|
            k < 8 ==> #[trigger] led_bit(mask ^ (1u8 << num), k) == if k == num {
                !led_bit(mask, k)
            } else {
                led_bit(mask, k)
            },
{
}

impl LedState {
    /// All pins low.
    pub fn new() -> (r: LedState)
        ensures
            r.0 == 0u8,
    {
        LedState(0)
    }

    /// Drive pin `num` to `high`; the other pins keep their state.
    pub fn set_high(&mut self, num: u8, high: bool)
        requires
            num < 8,
        ensures
            forall|k: u8|
                k < 8 ==> #[trigger] led_bit(final(self).0, k) == if k == num {
                    high
                } else {
                    led_bit(old(self).0, k)
                },
            final(self).0 == spec_set_bit(old(self).0, num, high),
    {
        if high {
            self.0 = self.0 | (1u8 << num);
        } else {
            self.0 = self.0 & !(1u8 << num);
        }
        proof {
            if high {
                lemma_set_bit_high(old(self).0, num);
            } else {
                lemma_set_bit_low(old(self).0, num);
            }
        }
    }

    /// Invert pin `num`; the other pins keep their state.
    pub fn toggle(&mut self, num: u8)
        requires
            num < 8,
        ensures
            forall|k: u8|
                k < 8 ==> #[trigger] led_bit(final(self).0, k) == if k == num {
                    !led_bit(old(self).0, k)
                } else {
                    led_bit(old(self).0, k)
                },
            final(self).0 == old(self).0 ^ (1u8 << num),
    {
        self.0 = self.0 ^ (1u8 << num);
        proof {
            lemma_toggle_bit(old(self).0, num);
        }
    }

    /// Replace the whole bitset.
    pub fn set_mask(&mut self, mask: u8)
        ensures
            final(self).0 == mask,
    {
        self.0 = mask;
    }

    /// Whether pin `num` is high.
    pub fn is_high(&self, num: u8) -> (r: bool)
        requires
            num < 8,
        ensures
            r == led_bit(self.0, num),
    {
        (self.0 & (1u8 << num)) != 0
    }
}

/// The two stations of the outbound transfer. While `InFlight`, the
/// hardware owns the buffer: nothing may touch its contents until the
/// completion interrupt reclaims it.
#[derive(Clone, Copy, PartialEq, Eq, Structural, Debug)]
pub enum TxState {
    Idle,
    InFlight,
}

/// The transmit transfer manager: one outbound transfer slot with busy/error
/// tracking. It enforces at most one in-flight transmission; a second start
/// is rejected as busy, never queued.
#[derive(Debug)]
pub struct TxTransfer {
    pub(crate) buffer: Buffer,
    pub(crate) state: TxState,
    pub(crate) state_pin: DebugLed,
}

impl TxTransfer {
    /// The buffer stays within its capacity.
    pub closed spec fn wf(self) -> bool {
        self.buffer.wf()
    }

    /// The bytes currently in the transfer buffer.
    pub closed spec fn buffered(self) -> Seq<u8> {
        self.buffer@
    }

    /// The capacity of the transfer buffer.
    pub closed spec fn buffer_capacity(self) -> usize {
        self.buffer.spec_capacity()
    }

    /// The manager's station: idle or in flight.
    pub closed spec fn spec_state(self) -> TxState {
        self.state
    }

    /// The status LED as the manager sees it.
    pub closed spec fn led(self) -> DebugLed {
        self.state_pin
    }

    /// A fresh manager: idle, with the given buffer and status LED.
    pub fn new(buffer: Buffer, state_pin: DebugLed) -> (r: TxTransfer)
        requires
            buffer.wf(),
        ensures
            r.wf(),
            r.spec_state() == TxState::Idle,
            r.buffered() == buffer@,
            r.buffer_capacity() == buffer.spec_capacity(),
            r.led() == state_pin,
    {
        TxTransfer { buffer, state: TxState::Idle, state_pin }
    }

    /// The bytes currently in the transfer buffer — what the hardware
    /// reads out once a transfer is started.
    pub fn buffered_bytes(&self) -> (r: &[u8])
        ensures
            r@ == self.buffered(),
    {
        self.buffer.contents()
    }

    /// Whether a transfer is in flight.
    pub fn is_busy(&self) -> (r: bool)
        ensures
            r == (self.spec_state() == TxState::InFlight),
    {
        match self.state {
            TxState::InFlight => true,
            TxState::Idle => false,
        }
    }

    /// Whether the error indicator is latched.
    pub fn is_error(&self) -> (r: bool)
        ensures
            r == self.led().on,
    {
        self.state_pin.is_on()
    }

    /// Clear the error indicator.
    pub fn clear_error(&mut self)
        ensures
            final(self).wf() == old(self).wf(),
            final(self).spec_state() == old(self).spec_state(),
            final(self).buffered() == old(self).buffered(),
            final(self).buffer_capacity() == old(self).buffer_capacity(),
            final(self).led() == (DebugLed { on: false, ..old(self).led() }),
    {
        self.state_pin.clear();
    }

    /// Advance the status LED's blink state machine.
    pub fn tick(&mut self, curr_millis: u64)
        ensures
            final(self).wf() == old(self).wf(),
            final(self).spec_state() == old(self).spec_state(),
            final(self).buffered() == old(self).buffered(),
            final(self).buffer_capacity() == old(self).buffer_capacity(),
            final(self).led() == crate::debug_led::spec_led_tick(old(self).led(), curr_millis),
    {
        self.state_pin.tick(curr_millis);
    }

    /// Start transmitting the buffered bytes. While a transfer is already in
    /// flight this fails as busy and changes nothing — in particular the
    /// in-flight buffer keeps its contents.
    pub fn start(&mut self) -> (r: Result<(), Error>)
        requires
            old(self).wf(),
        ensures
            final(self).wf(),
            final(self).buffered() == old(self).buffered(),
            final(self).buffer_capacity() == old(self).buffer_capacity(),
            match r {
                Ok(()) => old(self).spec_state() == TxState::Idle && final(self).spec_state()
                    == TxState::InFlight && final(self).led() == (DebugLed {
                    busy: true,
                    pin_high: true,
                    ..old(self).led()
                }),
                Err(e) => e == Error::SerialTxBusy && old(self).spec_state() == TxState::InFlight
                    && *final(self) == *old(self),
            },
    {
        match self.state {
            TxState::Idle => {
                self.state = TxState::InFlight;
                self.state_pin.on();
                Ok(())
            },
            TxState::InFlight => Err(Error::SerialTxBusy),
        }
    }

    /// React to the completion interrupt. `transfer_complete` is the
    /// hardware's transfer-complete condition, read by the interrupt
    /// handler. When no transfer was started this fails with
    /// `SerialTxNotStarted`; when the hardware is not actually done it fails
    /// as busy and changes nothing; otherwise the buffer is reclaimed and
    /// cleared, exactly once.
    pub fn on_transfer_complete(&mut self, transfer_complete: bool) -> (r: Result<(), Error>)
        requires
            old(self).wf(),
        ensures
            final(self).wf(),
            final(self).buffer_capacity() == old(self).buffer_capacity(),
            match r {
                Ok(()) => old(self).spec_state() == TxState::InFlight && transfer_complete
                    && final(self).spec_state() == TxState::Idle && final(self).buffered()
                    == Seq::<u8>::empty() && final(self).led() == (DebugLed {
                    busy: false,
                    pin_high: false,
                    ..old(self).led()
                }),
                Err(e) => *final(self) == *old(self) && if old(self).spec_state()
                    == TxState::InFlight {
                    e == Error::SerialTxBusy && !transfer_complete
                } else {
                    e == Error::SerialTxNotStarted
                },
            },
    {
        match self.state {
            TxState::InFlight => {
                if transfer_complete {
                    self.buffer.clear();
                    self.state = TxState::Idle;
                    self.state_pin.off();
                    Ok(())
                } else {
                    Err(Error::SerialTxBusy)
                }
            },
            TxState::Idle => Err(Error::SerialTxNotStarted),
        }
    }

    /// Completion-interrupt entry point: reclaim the buffer if the hardware
    /// is done, and latch the error indicator when the interrupt fired
    /// without a reclaimable transfer.
    pub fn handle_transfer_complete_interrupt(&mut self, transfer_complete: bool)
        requires
            old(self).wf(),
        ensures
            final(self).wf(),
            final(self).buffer_capacity() == old(self).buffer_capacity(),
            old(self).spec_state() == TxState::InFlight && transfer_complete ==> final(self).spec_state() == TxState::Idle && final(self).buffered() == Seq::<u8>::empty()
                && final(self).led() == (DebugLed {
                busy: false,
                pin_high: false,
                ..old(self).led()
            }),
            !(old(self).spec_state() == TxState::InFlight && transfer_complete) ==> final(self).spec_state() == old(self).spec_state() && final(self).buffered() == old(self).buffered() && final(self).led() == (DebugLed { on: true, ..old(self).led() }),
    {
        match self.on_transfer_complete(transfer_complete) {
            Ok(()) => (),
            Err(_) => {
                self.state_pin.set();
            },
        }
    }

    /// Write bytes into the transfer buffer and start the transfer at once.
    /// Rejected as busy while a transfer is in flight; an overflow leaves
    /// the transfer unstarted.
    pub fn send_bytes(&mut self, data: &[u8]) -> (r: Result<(), Error>)
        requires
            old(self).wf(),
        ensures
            final(self).wf(),
            final(self).buffer_capacity() == old(self).buffer_capacity(),
            match r {
                Ok(()) => old(self).spec_state() == TxState::Idle && data@.len() <= old(self).buffer_capacity() && final(self).spec_state() == TxState::InFlight && final(self).buffered() == data@ && final(self).led() == (DebugLed {
                    busy: true,
                    pin_high: true,
                    ..old(self).led()
                }),
                Err(e) => final(self).spec_state() == old(self).spec_state() && final(self).led()
                    == old(self).led() && final(self).buffer_capacity() == old(self).buffer_capacity() && if old(self).spec_state() == TxState::InFlight {
                    e == Error::SerialTxBusy && final(self).buffered() == old(self).buffered()
                } else {
                    e == Error::DmaBufferOverflow && data@.len() > old(self).buffer_capacity()
                        && final(self).buffered() == Seq::<u8>::empty()
                },
            },
    {
        match self.state {
            TxState::InFlight => Err(Error::SerialTxBusy),
            TxState::Idle => {
                self.buffer.clear();
                match self.buffer.add(data) {
                    Ok(()) => self.start(),
                    Err(e) => Err(e),
                }
            },
        }
    }

    /// Fire-and-forget variant of `send_bytes` for diagnostic output: a
    /// failure only latches the error indicator, it is never propagated.
    pub fn send_bytes_silent(&mut self, data: &[u8])
        requires
            old(self).wf(),
        ensures
            final(self).wf(),
            final(self).buffer_capacity() == old(self).buffer_capacity(),
            old(self).spec_state() == TxState::Idle && data@.len() <= old(self).buffer_capacity() ==> final(self).spec_state() == TxState::InFlight && final(self).buffered() == data@
                && final(self).led() == (DebugLed {
                busy: true,
                pin_high: true,
                ..old(self).led()
            }),
            old(self).spec_state() == TxState::InFlight ==> final(self).spec_state()
                == TxState::InFlight && final(self).buffered() == old(self).buffered() && final(self).led() == (DebugLed { on: true, ..old(self).led() }),
            old(self).spec_state() == TxState::Idle && data@.len() > old(self).buffer_capacity() ==> final(self).spec_state() == TxState::Idle && final(self).led() == (DebugLed { on: true, ..old(self).led() }),
    {
        match self.send_bytes(data) {
            Ok(()) => (),
            Err(_) => {
                self.state_pin.set();
            },
        }
    }
}

/// The receive-side accumulator. It stands for the circular DMA region the
/// serial receiver writes into: arriving bytes are queued (up to the
/// capacity; an overrun drops the excess), and the idle-timeout condition
/// marks a frame boundary. A drain hands out everything accumulated since
/// the previous drain.
#[derive(Debug)]
pub struct RxTransfer {
    pending: Vec<u8>,
    capacity: usize,
    timeout: bool,
}

impl RxTransfer {
    /// Bytes received and not yet drained.
    pub closed spec fn spec_pending(self) -> Seq<u8> {
        self.pending@
    }

    /// The fixed capacity of the receive region.
    pub closed spec fn spec_capacity(self) -> usize {
        self.capacity
    }

    /// Whether the idle-timeout condition fired since the last clear.
    pub closed spec fn spec_timeout(self) -> bool {
        self.timeout
    }

    /// The pending bytes never exceed the capacity.
    pub closed spec fn wf(self) -> bool {
        self.pending@.len() <= self.capacity
    }

    /// An empty receive region of the given capacity.
    pub fn new(capacity: usize) -> (r: RxTransfer)
        ensures
            r.wf(),
            r.spec_pending() == Seq::<u8>::empty(),
            r.spec_capacity() == capacity,
            !r.spec_timeout(),
    {
        RxTransfer { pending: Vec::new(), capacity, timeout: false }
    }

    /// Bytes arriving from the receiver: queue what fits, drop the rest.
    pub fn on_bytes_received(&mut self, data: &[u8])
        requires
            old(self).wf(),
        ensures
            final(self).wf(),
            final(self).spec_capacity() == old(self).spec_capacity(),
            final(self).spec_timeout() == old(self).spec_timeout(),
            final(self).spec_pending() == old(self).spec_pending() + data@.take(
                vstd::math::min(
                    data@.len() as int,
                    old(self).spec_capacity() - old(self).spec_pending().len(),
                ),
            ),
    {
        let free: usize = self.capacity - self.pending.len();
        let accept: usize = if data.len() < free {
            data.len()
        } else {
            free
        };
        let mut i: usize = 0;
        while i < accept
            invariant
                i <= accept <= data@.len(),
                self.capacity == old(self).capacity,
                self.timeout == old(self).timeout,
                self.pending@ == old(self).pending@ + data@.take(i as int),
                self.pending@.len() <= self.capacity,
                accept as int == vstd::math::min(
                    data@.len() as int,
                    old(self).capacity - old(self).pending@.len(),
                ),
            decreases accept - i,
        {
            self.pending.push(data[i]);
            proof {
                assert(self.pending@ =~= old(self).pending@ + data@.take(i + 1 as int));
            }
            i = i + 1;
        }
        proof {
            assert(old(self).pending@ + data@.take(0) =~= old(self).pending@);
        }
    }

    /// The hardware receiver-timeout (idle line) condition fired.
    pub fn note_idle_timeout(&mut self)
        requires
            old(self).wf(),
        ensures
            final(self).wf(),
            final(self).spec_pending() == old(self).spec_pending(),
            final(self).spec_capacity() == old(self).spec_capacity(),
            final(self).spec_timeout(),
    {
        self.timeout = true;
    }

    /// Whether the idle-timeout condition fired since the last clear.
    pub fn timeout_lapsed(&self) -> (r: bool)
        ensures
            r == self.spec_timeout(),
    {
        self.timeout
    }

    /// Acknowledge the idle-timeout condition.
    pub fn clear_timeout(&mut self)
        requires
            old(self).wf(),
        ensures
            final(self).wf(),
            final(self).spec_pending() == old(self).spec_pending(),
            final(self).spec_capacity() == old(self).spec_capacity(),
            !final(self).spec_timeout(),
    {
        self.timeout = false;
    }

    /// Drain everything accumulated since the previous drain.
    pub fn read_available(&mut self) -> (r: Vec<u8>)
        requires
            old(self).wf(),
        ensures
            final(self).wf(),
            r@ == old(self).spec_pending(),
            final(self).spec_pending() == Seq::<u8>::empty(),
            final(self).spec_capacity() == old(self).spec_capacity(),
            final(self).spec_timeout() == old(self).spec_timeout(),
    {
        let mut drained: Vec<u8> = Vec::new();
        core::mem::swap(&mut drained, &mut self.pending);
        drained
    }
}

impl TxTransfer {
    /// Service one drained frame through the dispatcher, with the transfer
    /// buffer as the response sink, and start transmitting what it wrote.
    /// While a transfer is still in flight the frame is dropped and the
    /// error indicator latched; a dispatch error or an oversized response
    /// likewise only latches the indicator.
    pub fn dispatch_received(
        &mut self,
        server: &mut Server,
        input: &[u8],
        storage: &mut Storage,
        channels: &mut PwmChannels,
        leds_state: &mut LedState,
    )
        requires
            old(self).wf(),
            old(storage).wf(),
            old(channels).wf(),
        ensures
            *final(server) == *old(server),
            final(self).wf(),
            final(storage).wf(),
            final(channels).wf(),
            final(self).buffer_capacity() == old(self).buffer_capacity(),
            final(storage).spec_fault() == old(storage).spec_fault(),
            old(self).spec_state() == TxState::InFlight ==> final(self).spec_state()
                == TxState::InFlight && final(self).buffered() == old(self).buffered() && final(self).led() == (DebugLed { on: true, ..old(self).led() }) && *final(storage) == *old(storage)
                && *final(channels) == *old(channels) && *final(leds_state) == *old(leds_state),
            old(self).spec_state() == TxState::Idle ==> ({
                let outcome = spec_idle(
                    old(server).device_id,
                    old(server).device_no,
                    input@,
                    old(storage).spec_fault(),
                    old(storage).spec_mem(),
                    old(channels).spec_slots(),
                    old(leds_state).0,
                );
                final(storage).spec_mem() == outcome.mem && final(channels).spec_slots()
                    == outcome.slots && final(leds_state).0 == outcome.leds && match outcome.result {
                    Err(_) => final(self).spec_state() == TxState::Idle && final(self).buffered()
                        == Seq::<u8>::empty() && final(self).led() == (DebugLed {
                        on: true,
                        ..old(self).led()
                    }),
                    Ok(()) => match outcome.response {
                        None => final(self).spec_state() == TxState::InFlight && final(self).buffered() == Seq::<u8>::empty() && final(self).led() == (DebugLed {
                            busy: true,
                            pin_high: true,
                            ..old(self).led()
                        }),
                        Some(resp) => {
                            let bytes = frame_bytes(enc_result(resp));
                            if bytes.len() <= old(self).buffer_capacity() {
                                final(self).spec_state() == TxState::InFlight && final(self).buffered() == bytes && final(self).led() == (DebugLed {
                                    busy: true,
                                    pin_high: true,
                                    ..old(self).led()
                                })
                            } else {
                                final(self).spec_state() == TxState::Idle && final(self).buffered()
                                    == Seq::<u8>::empty() && final(self).led() == (DebugLed {
                                    on: true,
                                    ..old(self).led()
                                })
                            }
                        },
                    },
                }
            }),
    {
        match self.state {
            TxState::InFlight => {
                self.state_pin.set();
            },
            TxState::Idle => {
                self.buffer.clear();
                match server.idle(input, &mut self.buffer, storage, channels, leds_state) {
                    Ok(()) => {
                        match self.start() {
                            Ok(()) => (),
                            Err(_) => {
                                proof {
                                    assert(false);
                                }
                            },
                        }
                    },
                    Err(_) => {
                        self.buffer.clear();
                        self.state_pin.set();
                    },
                }
            },
        }
    }
}

/// The periodic drain: when the idle-timeout condition has fired,
/// acknowledge it and hand everything accumulated since the previous drain
/// to the dispatcher as one frame. Without a timeout, or with nothing
/// accumulated, nothing else happens.
pub fn service_receive_timeout(
    rx: &mut RxTransfer,
    server: &mut Server,
    tx: &mut TxTransfer,
    storage: &mut Storage,
    channels: &mut PwmChannels,
    leds_state: &mut LedState,
)
    requires
        old(rx).wf(),
        old(tx).wf(),
        old(storage).wf(),
        old(channels).wf(),
    ensures
        *final(server) == *old(server),
        final(rx).wf(),
        final(tx).wf(),
        final(storage).wf(),
        final(channels).wf(),
        final(rx).spec_capacity() == old(rx).spec_capacity(),
        final(tx).buffer_capacity() == old(tx).buffer_capacity(),
        final(storage).spec_fault() == old(storage).spec_fault(),
        !old(rx).spec_timeout() ==> *final(rx) == *old(rx) && *final(tx) == *old(tx) && *final(storage) == *old(storage) && *final(channels) == *old(channels) && *final(leds_state) == *old(leds_state),
        old(rx).spec_timeout() ==> final(rx).spec_pending() == Seq::<u8>::empty() && !final(rx).spec_timeout(),
        old(rx).spec_timeout() && old(rx).spec_pending().len() == 0 ==> *final(tx) == *old(tx)
            && *final(storage) == *old(storage) && *final(channels) == *old(channels) && *final(leds_state) == *old(leds_state),
        old(rx).spec_timeout() && old(rx).spec_pending().len() > 0 && old(tx).spec_state()
            == TxState::InFlight ==> final(tx).spec_state() == TxState::InFlight && final(tx).buffered() == old(tx).buffered() && final(tx).led() == (DebugLed {
            on: true,
            ..old(tx).led()
        }) && *final(storage) == *old(storage) && *final(channels) == *old(channels) && *final(leds_state) == *old(leds_state),
        old(rx).spec_timeout() && old(rx).spec_pending().len() > 0 && old(tx).spec_state()
            == TxState::Idle ==> ({
            let outcome = spec_idle(
                old(server).device_id,
                old(server).device_no,
                old(rx).spec_pending(),
                old(storage).spec_fault(),
                old(storage).spec_mem(),
                old(channels).spec_slots(),
                old(leds_state).0,
            );
            final(storage).spec_mem() == outcome.mem && final(channels).spec_slots()
                == outcome.slots && final(leds_state).0 == outcome.leds
        }),
{
    if rx.timeout_lapsed() {
        rx.clear_timeout();
        let data = rx.read_available();
        if data.len() > 0 {
            tx.dispatch_received(server, data.as_slice(), storage, channels, leds_state);
        }
    }
}

} // verus!
