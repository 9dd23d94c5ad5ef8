use vstd::prelude::*;

use crate::text::{decimal, push_decimal, push_unsigned_centi, string_from_chars, unsigned_centi_text};

verus! {

pub const KB: u64 = 1024;

pub const MB: u64 = 1048576;

pub const GB: u64 = 1073741824;

pub struct Swap {
    pub total_swap: u64,
    pub used_swap: u64,
    pub free_swap: u64,
}

impl Swap {
    pub fn new() -> (r: Swap)
        ensures
            r.total_swap == 0,
            r.used_swap == 0,
            r.free_swap == 0,
    {
        Swap { total_swap: 0, used_swap: 0, free_swap: 0 }
    }
}

pub struct Ram {
    pub total_ram: u64,
    pub used_ram: u64,
    pub free_ram: u64,
}

impl Ram {
    pub fn new() -> (r: Ram)
        ensures
            r.total_ram == 0,
            r.used_ram == 0,
            r.free_ram == 0,
    {
        Ram { total_ram: 0, used_ram: 0, free_ram: 0 }
    }
}

pub struct Disk {
    pub total_disk: u64,
    pub used_disk: u64,
    pub free_disk: u64,
}

impl Disk {
    pub fn new() -> (r: Disk)
        ensures
            r.total_disk == 0,
            r.used_disk == 0,
            r.free_disk == 0,
    {
        Disk { total_disk: 0, used_disk: 0, free_disk: 0 }
    }
}

/// Raw byte counts read from the host: memory and swap give total and used,
/// the first disk gives total and available.
pub struct MemoryReadings {
    pub total_ram: u64,
    pub used_ram: u64,
    pub total_swap: u64,
    pub used_swap: u64,
    pub total_disk: u64,
    pub available_disk: u64,
}

/// `a - b`, or zero when `b` exceeds `a`.
pub open spec fn sat_sub(a: u64, b: u64) -> u64 {
    if a >= b {
        (a - b) as u64
    } else {
        0
    }
}

pub struct Memory {
    pub storage: Disk,
    pub swap: Swap,
    pub ram: Ram,
}

impl Memory {
    pub fn new() -> (r: Memory)
        ensures
            r.storage.total_disk == 0 && r.storage.used_disk == 0 && r.storage.free_disk == 0,
            r.swap.total_swap == 0 && r.swap.used_swap == 0 && r.swap.free_swap == 0,
            r.ram.total_ram == 0 && r.ram.used_ram == 0 && r.ram.free_ram == 0,
    {
        let storage = Disk::new();
        let swap = Swap::new();
        let ram = Ram::new();
        Memory { storage, swap, ram }
    }

    /// Takes in fresh readings: totals and used (or, for the disk, available)
    /// amounts as read, the remaining amount of each derived from them.
    pub fn get_memory(&mut self, readings: &MemoryReadings)
        ensures
            final(self).ram.total_ram == readings.total_ram,
            final(self).ram.used_ram == readings.used_ram,
            final(self).ram.free_ram == sat_sub(readings.total_ram, readings.used_ram),
            final(self).swap.total_swap == readings.total_swap,
            final(self).swap.used_swap == readings.used_swap,
            final(self).swap.free_swap == sat_sub(readings.total_swap, readings.used_swap),
            final(self).storage.total_disk == readings.total_disk,
            final(self).storage.free_disk == readings.available_disk,
            final(self).storage.used_disk == sat_sub(readings.total_disk, readings.available_disk),
    {
        self.ram.total_ram = readings.total_ram;
        self.ram.used_ram = readings.used_ram;
        self.ram.free_ram = saturating_difference(readings.total_ram, readings.used_ram);
        self.swap.total_swap = readings.total_swap;
        self.swap.used_swap = readings.used_swap;
        self.swap.free_swap = saturating_difference(readings.total_swap, readings.used_swap);
        self.storage.free_disk = readings.available_disk;
        self.storage.total_disk = readings.total_disk;
        self.storage.used_disk = saturating_difference(
            readings.total_disk,
            readings.available_disk,
        );
    }
}

fn saturating_difference(a: u64, b: u64) -> (r: u64)
    ensures
        r == sat_sub(a, b),
{
    if a >= b {
        a - b
    } else {
        0
    }
}

/// `size` bytes counted in hundredths of `unit`, rounded to the nearest
/// hundredth; an exact half goes to the even neighbour.
pub open spec fn centi_units(size: nat, unit: nat) -> nat
    recommends
        unit > 0,
{
    let q = size * 100 / unit;
    let rem = size * 100 % unit;
    if 2 * rem > unit || (2 * rem == unit && q % 2 == 1) {
        q + 1
    } else {
        q
    }
}

/// A byte count as shown to the user: in gigabytes ("Go"), megabytes ("Mo")
/// or kilobytes ("Ko") with two decimal places, choosing the largest unit not
/// above the size, or in bytes ("B") below one kilobyte.
pub open spec fn bytes_text(size: nat) -> Seq<char> {
    if size >= GB {
        unsigned_centi_text(centi_units(size, GB as nat)) + seq!['G', 'o']
    } else if size >= MB {
        unsigned_centi_text(centi_units(size, MB as nat)) + seq!['M', 'o']
    } else if size >= KB {
        unsigned_centi_text(centi_units(size, KB as nat)) + seq!['K', 'o']
    } else {
        decimal(size) + seq!['B']
    }
}

fn centi_units_of(size: u64, unit: u64) -> (r: u64)
    requires
        unit >= KB,
    ensures
        r == centi_units(size as nat, unit as nat),
{
    let scaled: u128 = size as u128 * 100;
    let q: u128 = scaled / unit as u128;
    let rem: u128 = scaled % unit as u128;
    assert(q as int <= size as int * 100 / 1024) by (nonlinear_arith)
        requires
            scaled as int == size as int * 100,
            q as int == scaled as int / unit as int,
            unit as int >= 1024;
    assert(size as int * 100 / 1024 < 0xffff_ffff_ffff_ffff);
    if 2 * rem > unit as u128 || (2 * rem == unit as u128 && q % 2 == 1) {
        (q + 1) as u64
    } else {
        q as u64
    }
}

/// A byte count as shown to the user (see `bytes_text`).
pub fn convert_bytes_to_any(size: u64) -> (r: String)
    ensures
        r@ == bytes_text(size as nat),
{
    let mut out: Vec<char> = Vec::new();
    if size >= GB {
        push_unsigned_centi(&mut out, centi_units_of(size, GB));
        out.push('G');
        out.push('o');
    } else if size >= MB {
        push_unsigned_centi(&mut out, centi_units_of(size, MB));
        out.push('M');
        out.push('o');
    } else if size >= KB {
        push_unsigned_centi(&mut out, centi_units_of(size, KB));
        out.push('K');
        out.push('o');
    } else {
        push_decimal(&mut out, size);
        out.push('B');
    }
    assert(out@ =~= bytes_text(size as nat));
    string_from_chars(&out)
}

} // verus!
