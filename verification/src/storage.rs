//! Persistent settings storage over one flash region.
//!
//! Each record is laid down as an 8-byte magic signature followed by the
//! record's fields in big-endian order; the signature distinguishes a valid
//! record from blank or erased flash. The two records sit at fixed,
//! non-overlapping offsets of the region. The flash region and the device's
//! health are held as plain state: a latched fault stands for a flash
//! controller that fails every read, erase and write, as the real driver
//! surfaces it.

use vstd::prelude::*;

use crate::codec::emit_u16;
use crate::codec::emit_u32;
use crate::codec::emit_u64;
use crate::codec::emit_u32s;
use crate::codec::enc_u16;
use crate::codec::enc_u32;
use crate::codec::enc_u64;
use crate::codec::enc_u32s;
use crate::codec::p_u16;
use crate::codec::p_u32;
use crate::codec::p_u32s;
use crate::codec::lemma_enc_u32s_len;
use crate::codec::lemma_p_u32s;
use crate::codec::lemma_p_u32s_total;
use crate::errors::Error;
use crate::errors::FlashFault;
use crate::pwm_service::spec_groups;
use crate::pwm_service::PwmSettings;
use crate::GROUPS_COUNT;

verus! {

/// Magic signature that marks a record slot as holding a valid record.
pub const RECORD_SIGN: u64 = 0x12F8_AC59_26C1_D2A3;

/// Size of the magic signature prefix, in bytes.
pub const SIGN_SIZE: usize = 8;

/// Offset of the PWM settings record in the region.
pub const PWM_RECORD_OFFSET: usize = 0;

/// Size of the PWM settings record: signature plus eight 32-bit words.
pub const PWM_RECORD_SIZE: usize = SIGN_SIZE + 32;

/// Offset of the device settings record in the region.
pub const DEVICE_RECORD_OFFSET: usize = PWM_RECORD_OFFSET + PWM_RECORD_SIZE;

/// Size of the device settings record: signature plus an 8-byte body.
pub const DEVICE_RECORD_SIZE: usize = SIGN_SIZE + 8;

/// Size of the whole persistent region.
pub const REGION_SIZE: usize = PWM_RECORD_SIZE + DEVICE_RECORD_SIZE;

/// The value blank (erased) flash reads as.
pub const ERASED_BYTE: u8 = 0xFF;

/// The persisted device settings: the configured device number, padded to
/// the 8-byte alignment the persistence layer requires.
#[derive(Clone, Copy, PartialEq, Eq, Structural, Debug)]
pub struct DeviceSettings {
    pub device_no: u8,
    pub _unused1: u8,
    pub _unused2: u16,
    pub _unused3: u32,
}

impl DeviceSettings {
    /// Settings carrying the given device number, with zeroed padding.
    pub fn new(device_no: u8) -> (r: DeviceSettings)
        ensures
            r == (DeviceSettings { device_no, _unused1: 0u8, _unused2: 0u16, _unused3: 0u32 }),
    {
        DeviceSettings { device_no, _unused1: 0, _unused2: 0, _unused3: 0 }
    }
}

/// The on-flash bytes of the PWM settings record.
pub open spec fn spec_pwm_record(s: PwmSettings) -> Seq<u8> {
    enc_u64(RECORD_SIGN) + enc_u32s(spec_groups(s))
}

/// The on-flash bytes of the device settings record.
pub open spec fn spec_device_record(d: DeviceSettings) -> Seq<u8> {
    enc_u64(RECORD_SIGN) + (seq![d.device_no] + (seq![d._unused1] + (enc_u16(d._unused2)
        + enc_u32(d._unused3))))
}

/// Whether a valid record signature sits at `offset` of the region.
pub open spec fn sign_present_at(mem: Seq<u8>, offset: int) -> bool {
    mem.subrange(offset, offset + SIGN_SIZE) == enc_u64(RECORD_SIGN)
}

/// The PWM settings whose fields are stored after the PWM record signature
/// (meaningful only while the signature is present).
pub open spec fn spec_stored_pwm(mem: Seq<u8>) -> PwmSettings {
    match p_u32s(mem.skip(PWM_RECORD_OFFSET + SIGN_SIZE), GROUPS_COUNT as nat) {
        Some(t) => PwmSettings {
            group1_freq_hz: t.0[0],
            group2_freq_hz: t.0[1],
            group3_freq_hz: t.0[2],
            group4_freq_hz: t.0[3],
            group5_freq_hz: t.0[4],
            group6_freq_hz: t.0[5],
            group7_freq_hz: t.0[6],
            group8_freq_hz: t.0[7],
        },
        None => PwmSettings {
            group1_freq_hz: 0,
            group2_freq_hz: 0,
            group3_freq_hz: 0,
            group4_freq_hz: 0,
            group5_freq_hz: 0,
            group6_freq_hz: 0,
            group7_freq_hz: 0,
            group8_freq_hz: 0,
        },
    }
}

/// The device settings whose fields are stored after the device record
/// signature (meaningful only while the signature is present).
pub open spec fn spec_stored_device(mem: Seq<u8>) -> DeviceSettings {
    let body = mem.skip(DEVICE_RECORD_OFFSET + SIGN_SIZE);
    match p_u16(body.skip(2)) {
        Some(t2) => match p_u32(t2.1) {
            Some(t3) => DeviceSettings {
                device_no: body[0],
                _unused1: body[1],
                _unused2: t2.0,
                _unused3: t3.0,
            },
            None => DeviceSettings { device_no: 0, _unused1: 0, _unused2: 0, _unused3: 0 },
        },
        None => DeviceSettings { device_no: 0, _unused1: 0, _unused2: 0, _unused3: 0 },
    }
}

/// The persistent storage device: the flash region's bytes and the
/// controller's health.
#[derive(Debug)]
pub struct Storage {
    mem: Vec<u8>,
    fault: Option<FlashFault>,
}

impl Storage {
    /// The bytes of the flash region.
    pub closed spec fn spec_mem(self) -> Seq<u8> {
        self.mem@
    }

    /// The latched controller fault, if any.
    pub closed spec fn spec_fault(self) -> Option<FlashFault> {
        self.fault
    }

    /// The region always spans exactly the two record slots.
    pub open spec fn wf(self) -> bool {
        self.spec_mem().len() == REGION_SIZE
    }

    /// A storage device over blank (never written) flash.
    pub fn new() -> (r: Storage)
        ensures
            r.wf(),
            r.spec_fault() is None,
            forall|i: int| 0 <= i < REGION_SIZE ==> r.spec_mem()[i] == ERASED_BYTE,
    {
        let mut mem: Vec<u8> = Vec::new();
        let mut i: usize = 0;
        while i < REGION_SIZE
            invariant
                i <= REGION_SIZE,
                mem@.len() == i,
                forall|k: int| 0 <= k < i ==> mem@[k] == ERASED_BYTE,
            decreases REGION_SIZE - i,
        {
            mem.push(ERASED_BYTE);
            i = i + 1;
        }
        Storage { mem, fault: None }
    }

    /// Latch or clear a controller fault. A latched fault makes every read,
    /// erase and write fail with that fault, as a broken flash controller
    /// would.
    pub fn set_fault(&mut self, fault: Option<FlashFault>)
        requires
            old(self).wf(),
        ensures
            final(self).wf(),
            final(self).spec_mem() == old(self).spec_mem(),
            final(self).spec_fault() == fault,
    {
        self.fault = fault;
    }

    /// Erase `size` bytes starting at `offset`: they read back blank.
    pub fn erase(&mut self, offset: usize, size: usize) -> (r: Result<(), Error>)
        requires
            old(self).wf(),
            offset + size <= REGION_SIZE,
        ensures
            final(self).wf(),
            final(self).spec_fault() == old(self).spec_fault(),
            match r {
                Ok(()) => old(self).spec_fault() is None && final(self).spec_mem() == old(
                    self,
                ).spec_mem().take(offset as int) + Seq::new(size as nat, |i: int| ERASED_BYTE)
                    + old(self).spec_mem().skip(offset + size),
                Err(e) => old(self).spec_fault() matches Some(f) && e == Error::FlashError(f)
                    && final(self).spec_mem() == old(self).spec_mem(),
            },
    {
        match self.fault {
            Some(f) => Err(Error::FlashError(f)),
            None => {
                let mut i: usize = 0;
                while i < size
                    invariant
                        i <= size,
                        offset + size <= REGION_SIZE,
                        self.mem@.len() == REGION_SIZE,
                        self.fault == old(self).spec_fault(),
                        forall|k: int|
                            0 <= k < self.mem@.len() && !(offset <= k < offset + i)
                                ==> #[trigger] self.mem@[k] == old(self).spec_mem()[k],
                        forall|k: int|
                            offset <= k < offset + i ==> #[trigger] self.mem@[k] == ERASED_BYTE,
                    decreases size - i,
                {
                    self.mem.set(offset + i, ERASED_BYTE);
                    i = i + 1;
                }
                proof {
                    assert(self.mem@ =~= old(self).spec_mem().take(offset as int) + Seq::new(
                        size as nat,
                        |i: int| ERASED_BYTE,
                    ) + old(self).spec_mem().skip(offset + size));
                }
                Ok(())
            },
        }
    }

    /// Overwrite part of the region with the given bytes.
    fn write_at(&mut self, offset: usize, bytes: &[u8])
        requires
            old(self).wf(),
            offset + bytes@.len() <= REGION_SIZE,
        ensures
            final(self).wf(),
            final(self).spec_fault() == old(self).spec_fault(),
            final(self).spec_mem() == old(self).spec_mem().take(offset as int) + bytes@ + old(
                self,
            ).spec_mem().skip(offset + bytes@.len()),
    {
        let mut i: usize = 0;
        while i < bytes.len()
            invariant
                i <= bytes@.len(),
                offset + bytes@.len() <= REGION_SIZE,
                self.mem@.len() == REGION_SIZE,
                self.fault == old(self).spec_fault(),
                forall|k: int|
                    0 <= k < self.mem@.len() && !(offset <= k < offset + i) ==> #[trigger] self.mem@[k]
                        == old(self).spec_mem()[k],
                forall|k: int|
                    offset <= k < offset + i ==> #[trigger] self.mem@[k] == bytes@[k - offset],
            decreases bytes@.len() - i,
        {
            self.mem.set(offset + i, bytes[i]);
            i = i + 1;
        }
        proof {
            assert(self.mem@ =~= old(self).spec_mem().take(offset as int) + bytes@ + old(
                self,
            ).spec_mem().skip(offset + bytes@.len()));
        }
    }

    /// Whether a valid record signature sits at `offset`.
    fn sign_present(&self, offset: usize) -> (r: bool)
        requires
            self.wf(),
            offset + SIGN_SIZE <= REGION_SIZE,
        ensures
            r == sign_present_at(self.spec_mem(), offset as int),
    {
        let mut expected: Vec<u8> = Vec::new();
        emit_u64(&mut expected, RECORD_SIGN);
        proof {
            assert(expected@ =~= enc_u64(RECORD_SIGN));
        }
        let mut i: usize = 0;
        while i < SIGN_SIZE
            invariant
                i <= SIGN_SIZE,
                offset + SIGN_SIZE <= REGION_SIZE,
                self.wf(),
                expected@ == enc_u64(RECORD_SIGN),
                forall|k: int| 0 <= k < i ==> self.spec_mem()[offset + k] == expected@[k],
            decreases SIGN_SIZE - i,
        {
            if self.mem[offset + i] != expected[i] {
                proof {
                    assert(self.spec_mem().subrange(offset as int, offset + SIGN_SIZE)[i as int]
                        == self.spec_mem()[offset + i]);
                }
                return false;
            }
            i = i + 1;
        }
        proof {
            assert(self.spec_mem().subrange(offset as int, offset + SIGN_SIZE) =~= enc_u64(
                RECORD_SIGN,
            ));
        }
        true
    }

    /// Persist the PWM settings record: erase its slot, then write the
    /// signature and the eight frequencies.
    pub fn save_pwm_settings(&mut self, settings: &PwmSettings) -> (r: Result<(), Error>)
        requires
            old(self).wf(),
        ensures
            final(self).wf(),
            final(self).spec_fault() == old(self).spec_fault(),
            match r {
                Ok(()) => old(self).spec_fault() is None && final(self).spec_mem() == old(
                    self,
                ).spec_mem().take(PWM_RECORD_OFFSET as int) + spec_pwm_record(*settings) + old(
                    self,
                ).spec_mem().skip(PWM_RECORD_OFFSET + PWM_RECORD_SIZE),
                Err(e) => old(self).spec_fault() matches Some(f) && e == Error::FlashError(f)
                    && final(self).spec_mem() == old(self).spec_mem(),
            },
    {
        match self.erase(PWM_RECORD_OFFSET, PWM_RECORD_SIZE) {
            Ok(()) => {
                let mut record: Vec<u8> = Vec::new();
                emit_u64(&mut record, RECORD_SIGN);
                let groups = settings.get_all_groups_freq();
                emit_u32s(&mut record, &groups);
                proof {
                    lemma_enc_u32s_len(spec_groups(*settings));
                    assert(record@ =~= spec_pwm_record(*settings));
                }
                self.write_at(PWM_RECORD_OFFSET, record.as_slice());
                proof {
                    assert(self.spec_mem() =~= old(self).spec_mem().take(PWM_RECORD_OFFSET as int)
                        + spec_pwm_record(*settings) + old(self).spec_mem().skip(
                        PWM_RECORD_OFFSET + PWM_RECORD_SIZE,
                    ));
                }
                Ok(())
            },
            Err(e) => Err(e),
        }
    }

    /// Read the PWM settings record. A missing or blank record reads as
    /// `StorageEmpty`; a controller fault is surfaced as `FlashError`.
    pub fn read_pwm_settings(&mut self) -> (r: Result<PwmSettings, Error>)
        requires
            old(self).wf(),
        ensures
            final(self).wf(),
            *final(self) == *old(self),
            match r {
                Ok(s) => old(self).spec_fault() is None && sign_present_at(
                    old(self).spec_mem(),
                    PWM_RECORD_OFFSET as int,
                ) && s == spec_stored_pwm(old(self).spec_mem()),
                Err(e) => match old(self).spec_fault() {
                    Some(f) => e == Error::FlashError(f),
                    None => e == Error::StorageEmpty && !sign_present_at(
                        old(self).spec_mem(),
                        PWM_RECORD_OFFSET as int,
                    ),
                },
            },
    {
        match self.fault {
            Some(f) => Err(Error::FlashError(f)),
            None => {
                if !self.sign_present(PWM_RECORD_OFFSET) {
                    return Err(Error::StorageEmpty);
                }
                match crate::codec::take_u32s(
                    self.mem.as_slice(),
                    PWM_RECORD_OFFSET + SIGN_SIZE,
                    GROUPS_COUNT,
                ) {
                    Some((words, _)) => Ok(
                        PwmSettings::new(
                            words[0],
                            words[1],
                            words[2],
                            words[3],
                            words[4],
                            words[5],
                            words[6],
                            words[7],
                        ),
                    ),
                    None => {
                        proof {
                            lemma_p_u32s_total(
                                self.spec_mem().skip(PWM_RECORD_OFFSET + SIGN_SIZE),
                                GROUPS_COUNT as nat,
                            );
                        }
                        Err(Error::StorageEmpty)
                    },
                }
            },
        }
    }

    /// Read the PWM settings; on a blank record specifically, persist and
    /// return the default record, so that a subsequent read yields the same
    /// values. Any other fault propagates.
    pub fn read_or_create_pwm_settings(&mut self) -> (r: Result<PwmSettings, Error>)
        requires
            old(self).wf(),
        ensures
            final(self).wf(),
            final(self).spec_fault() == old(self).spec_fault(),
            match r {
                Ok(s) => old(self).spec_fault() is None && if sign_present_at(
                    old(self).spec_mem(),
                    PWM_RECORD_OFFSET as int,
                ) {
                    s == spec_stored_pwm(old(self).spec_mem()) && final(self).spec_mem() == old(
                        self,
                    ).spec_mem()
                } else {
                    (forall|g: int|
                        0 <= g < GROUPS_COUNT ==> spec_groups(s)[g]
                            == crate::pwm_service::DEFAULT_FREQUENCY_HZ) && sign_present_at(
                        final(self).spec_mem(),
                        PWM_RECORD_OFFSET as int,
                    ) && spec_stored_pwm(final(self).spec_mem()) == s
                },
                Err(e) => old(self).spec_fault() matches Some(f) && e == Error::FlashError(f)
                    && final(self).spec_mem() == old(self).spec_mem(),
            },
    {
        match self.read_pwm_settings() {
            Ok(settings) => Ok(settings),
            Err(Error::StorageEmpty) => {
                let result = PwmSettings::default();
                match self.save_pwm_settings(&result) {
                    Ok(()) => {
                        proof {
                            lemma_enc_u32s_len(spec_groups(result));
                            assert(self.spec_mem().subrange(
                                PWM_RECORD_OFFSET as int,
                                PWM_RECORD_OFFSET + PWM_RECORD_SIZE,
                            ) =~= spec_pwm_record(result));
                            lemma_record_read_back(self.spec_mem(), result);
                        }
                        Ok(result)
                    },
                    Err(e) => Err(e),
                }
            },
            Err(e) => Err(e),
        }
    }

    /// Persist the device settings record: erase its slot, then write the
    /// signature and the fields.
    pub fn save_device_settings(&mut self, settings: &DeviceSettings) -> (r: Result<(), Error>)
        requires
            old(self).wf(),
        ensures
            final(self).wf(),
            final(self).spec_fault() == old(self).spec_fault(),
            match r {
                Ok(()) => old(self).spec_fault() is None && final(self).spec_mem() == old(
                    self,
                ).spec_mem().take(DEVICE_RECORD_OFFSET as int) + spec_device_record(*settings),
                Err(e) => old(self).spec_fault() matches Some(f) && e == Error::FlashError(f)
                    && final(self).spec_mem() == old(self).spec_mem(),
            },
    {
        match self.erase(DEVICE_RECORD_OFFSET, DEVICE_RECORD_SIZE) {
            Ok(()) => {
                let mut record: Vec<u8> = Vec::new();
                emit_u64(&mut record, RECORD_SIGN);
                record.push(settings.device_no);
                record.push(settings._unused1);
                emit_u16(&mut record, settings._unused2);
                emit_u32(&mut record, settings._unused3);
                proof {
                    assert(record@ =~= spec_device_record(*settings));
                }
                self.write_at(DEVICE_RECORD_OFFSET, record.as_slice());
                proof {
                    assert(self.spec_mem() =~= old(self).spec_mem().take(
                        DEVICE_RECORD_OFFSET as int,
                    ) + spec_device_record(*settings));
                }
                Ok(())
            },
            Err(e) => Err(e),
        }
    }

    /// Read the device settings record. A missing or blank record reads as
    /// `StorageEmpty`; a controller fault is surfaced as `FlashError`.
    pub fn read_device_settings(&mut self) -> (r: Result<DeviceSettings, Error>)
        requires
            old(self).wf(),
        ensures
            final(self).wf(),
            *final(self) == *old(self),
            match r {
                Ok(d) => old(self).spec_fault() is None && sign_present_at(
                    old(self).spec_mem(),
                    DEVICE_RECORD_OFFSET as int,
                ) && d == spec_stored_device(old(self).spec_mem()),
                Err(e) => match old(self).spec_fault() {
                    Some(f) => e == Error::FlashError(f),
                    None => e == Error::StorageEmpty && !sign_present_at(
                        old(self).spec_mem(),
                        DEVICE_RECORD_OFFSET as int,
                    ),
                },
            },
    {
        match self.fault {
            Some(f) => Err(Error::FlashError(f)),
            None => {
                if !self.sign_present(DEVICE_RECORD_OFFSET) {
                    return Err(Error::StorageEmpty);
                }
                let body = DEVICE_RECORD_OFFSET + SIGN_SIZE;
                let device_no = self.mem[body];
                let unused1 = self.mem[body + 1];
                let r16 = crate::codec::take_u16(self.mem.as_slice(), body + 2);
                let r32 = crate::codec::take_u32(self.mem.as_slice(), body + 4);
                match (r16, r32) {
                    (Some((unused2, _)), Some((unused3, _))) => {
                        let d = DeviceSettings {
                            device_no,
                            _unused1: unused1,
                            _unused2: unused2,
                            _unused3: unused3,
                        };
                        proof {
                            let memv = self.spec_mem();
                            let bodyv = memv.skip(DEVICE_RECORD_OFFSET + SIGN_SIZE);
                            assert(bodyv.skip(2) =~= memv.skip(DEVICE_RECORD_OFFSET + SIGN_SIZE
                                + 2));
                            assert(memv.skip(DEVICE_RECORD_OFFSET + SIGN_SIZE + 2).skip(2) =~= memv.skip(
                                DEVICE_RECORD_OFFSET + SIGN_SIZE + 4,
                            ));
                            assert(bodyv[0] == memv[DEVICE_RECORD_OFFSET + SIGN_SIZE]);
                            assert(bodyv[1] == memv[DEVICE_RECORD_OFFSET + SIGN_SIZE + 1]);
                        }
                        Ok(d)
                    },
                    _ => Err(Error::StorageEmpty),
                }
            },
        }
    }
}

/// After the PWM record bytes are laid down at their slot, reading the
/// stored settings yields the saved record.
#[verifier::rlimit(100)]
#[verifier::spinoff_prover]
proof fn lemma_record_read_back(mem: Seq<u8>, s: PwmSettings)
    requires
        mem.len() == REGION_SIZE,
        mem.subrange(PWM_RECORD_OFFSET as int, PWM_RECORD_OFFSET + PWM_RECORD_SIZE)
            == spec_pwm_record(s),
    ensures
        sign_present_at(mem, PWM_RECORD_OFFSET as int),
        spec_stored_pwm(mem) == s,
{
    let record = spec_pwm_record(s);
    lemma_enc_u32s_len(spec_groups(s));
    assert(mem.subrange(PWM_RECORD_OFFSET as int, PWM_RECORD_OFFSET + SIGN_SIZE) =~= enc_u64(
        RECORD_SIGN,
    ));
    let tail = mem.skip(PWM_RECORD_OFFSET + SIGN_SIZE);
    let rest = mem.skip(PWM_RECORD_OFFSET + PWM_RECORD_SIZE);
    let words = enc_u32s(spec_groups(s));
    assert forall|i: int| 0 <= i < tail.len() implies tail[i] == (words + rest)[i] by {
        if i < words.len() {
            assert(mem.subrange(PWM_RECORD_OFFSET as int, PWM_RECORD_OFFSET + PWM_RECORD_SIZE)[
                SIGN_SIZE + i
            ] == mem[PWM_RECORD_OFFSET + SIGN_SIZE + i]);
            assert(record[SIGN_SIZE + i] == words[i]);
        }
    }
    assert(tail =~= words + rest);
    lemma_p_u32s(spec_groups(s), rest);
    assert(spec_groups(s).len() == GROUPS_COUNT as nat);
    assert(spec_stored_pwm(mem) == s);
}

} // verus!
