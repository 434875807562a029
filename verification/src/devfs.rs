use vstd::prelude::*;
use vstd::string::StringSliceAdditionalSpecFns;

use crate::block::{BlockDeviceInfo, BlockRegistry, PartitionInfo, PartitionTableKind, spec_table_kind_text};
use crate::bstr::{bytes_eq, has_prefix, push_all, starts_with};
use crate::num::saturating_mul_usize;
use crate::fmt::{decimal, decimal_bytes, digit_byte, hex_fixed, push_decimal, push_hex_byte, push_newline, push_str, push_yes_no, yes_no_bytes};
use crate::text::{all_ascii, ascii_chars, lossy_utf8, string_from_bytes_lossy};
use crate::tty::TtyStats;

verus! {

/// Kind of a node under `/dev`.
#[derive(Copy, Clone, PartialEq, Eq, Structural, Debug)]
pub enum DevfsNodeKind {
    Directory,
    Device,
}

/// Counts describing `/dev`.
#[derive(Copy, Clone, PartialEq, Eq, Structural, Debug)]
pub struct DevfsSummary {
    pub directory_count: usize,
    pub node_count: usize,
    pub entry_count: usize,
}

/// Why `/dev` could not be mounted.
#[derive(Copy, Clone, PartialEq, Eq, Structural, Debug)]
pub enum DevfsError {
    AlreadyInitialized,
}

impl DevfsError {
    pub fn as_str(self) -> (s: &'static str)
        ensures
            s@ == "devfs is already initialized"@,
    {
        match self {
            Self::AlreadyInitialized => "devfs is already initialized",
        }
    }
}

/// A block device path: the disk index and, for a partition, its 1-based index on that disk.
#[derive(Copy, Clone, PartialEq, Eq, Structural, Debug)]
pub struct ParsedBlockPath {
    pub device_index: usize,
    pub partition_index: Option<usize>,
}

// ---------------------------------------------------------------------------
// Numbers and letters in device names.

pub open spec fn is_lower(b: u8) -> bool {
    0x61 <= b <= 0x7a
}

pub open spec fn is_digit(b: u8) -> bool {
    0x30 <= b <= 0x39
}

/// Value of a bijective base-26 string of lower-case letters (`a` = 1, ..., `z` = 26).
pub open spec fn letters_value(s: Seq<u8>) -> int
    decreases s.len(),
{
    if s.len() == 0 {
        0
    } else {
        letters_value(s.drop_last()) * 26 + (s.last() - 0x61 + 1)
    }
}

/// Value of a string of decimal digits.
pub open spec fn digits_value(s: Seq<u8>) -> int
    decreases s.len(),
{
    if s.len() == 0 {
        0
    } else {
        digits_value(s.drop_last()) * 10 + (s.last() - 0x30)
    }
}

pub open spec fn all_lower(s: Seq<u8>) -> bool {
    forall|i: int| 0 <= i < s.len() ==> is_lower(#[trigger] s[i])
}

pub open spec fn all_digits(s: Seq<u8>) -> bool {
    forall|i: int| 0 <= i < s.len() ==> is_digit(#[trigger] s[i])
}

/// Index of a disk named by `sd` letters: `a` is 0, `z` is 25, `aa` is 26.
pub open spec fn spec_decode_sd(s: Seq<u8>) -> Option<usize> {
    if all_lower(s) && s.len() > 0 && letters_value(s) <= usize::MAX {
        Some((letters_value(s) - 1) as usize)
    } else {
        None
    }
}

/// A number written in decimal digits, if it fits.
pub open spec fn spec_unsigned_decimal(s: Seq<u8>) -> Option<usize> {
    if s.len() > 0 && all_digits(s) && digits_value(s) <= usize::MAX {
        Some(digits_value(s) as usize)
    } else {
        None
    }
}

/// A positive number written in decimal digits, if it fits.
pub open spec fn spec_positive_decimal(s: Seq<u8>) -> Option<usize> {
    match spec_unsigned_decimal(s) {
        Some(v) => if v == 0 { None } else { Some(v) },
        None => None,
    }
}

/// Letters of the disk numbered `n` (1-based) in bijective base 26.
pub open spec fn sd_letters(n: nat) -> Seq<u8>
    decreases n,
{
    if n == 0 {
        Seq::empty()
    } else {
        sd_letters(((n - 1) / 26) as nat).push((0x61 + (n - 1) % 26) as u8)
    }
}

/// Letters that name the disk with index `index`.
pub open spec fn spec_encode_sd(index: usize) -> Seq<u8> {
    sd_letters(if index == usize::MAX { index as nat } else { (index + 1) as nat })
}

proof fn lemma_letters_prefix_le(s: Seq<u8>, k: int)
    requires
        0 <= k <= s.len(),
        all_lower(s),
    ensures
        0 <= letters_value(s.subrange(0, k)) <= letters_value(s),
    decreases s.len() - k,
{
    if k < s.len() {
        lemma_letters_prefix_le(s, k + 1);
        assert(s.subrange(0, k + 1).drop_last() =~= s.subrange(0, k));
        assert(is_lower(s[k]));
    } else {
        assert(s.subrange(0, k) =~= s);
    }
    lemma_letters_nonneg(s.subrange(0, k));
}

proof fn lemma_letters_nonneg(s: Seq<u8>)
    requires
        all_lower(s),
    ensures
        letters_value(s) >= 0,
        s.len() > 0 ==> letters_value(s) >= 1,
    decreases s.len(),
{
    if s.len() > 0 {
        lemma_letters_nonneg(s.drop_last());
        assert(is_lower(s[s.len() - 1]));
    }
}

proof fn lemma_digits_prefix_le(s: Seq<u8>, k: int)
    requires
        0 <= k <= s.len(),
        all_digits(s),
    ensures
        0 <= digits_value(s.subrange(0, k)) <= digits_value(s),
    decreases s.len() - k,
{
    if k < s.len() {
        lemma_digits_prefix_le(s, k + 1);
        assert(s.subrange(0, k + 1).drop_last() =~= s.subrange(0, k));
        assert(is_digit(s[k]));
        lemma_digits_nonneg(s.subrange(0, k));
    } else {
        assert(s.subrange(0, k) =~= s);
        lemma_digits_nonneg(s);
    }
}

proof fn lemma_digits_nonneg(s: Seq<u8>)
    requires
        all_digits(s),
    ensures
        digits_value(s) >= 0,
    decreases s.len(),
{
    if s.len() > 0 {
        lemma_digits_nonneg(s.drop_last());
        assert(is_digit(s[s.len() - 1]));
    }
}

/// Disk index of `sd` letters.
fn decode_sd_letters(letters: &[u8]) -> (index: Option<usize>)
    ensures
        index == spec_decode_sd(letters@),
{
    let mut value: usize = 0;
    let mut i: usize = 0;
    while i < letters.len()
        invariant
            i <= letters@.len(),
            all_lower(letters@.subrange(0, i as int)),
            value == letters_value(letters@.subrange(0, i as int)),
        decreases letters@.len() - i,
    {
        let byte = letters[i];
        proof {
            assert(letters@.subrange(0, i + 1).drop_last() =~= letters@.subrange(0, i as int));
        }
        if !(0x61 <= byte && byte <= 0x7a) {
            proof {
                assert(!all_lower(letters@));
            }
            return None;
        }
        let digit = (byte - 0x61 + 1) as usize;
        let scaled = match value.checked_mul(26) {
            Some(v) => v,
            None => {
                proof {
                    if all_lower(letters@) {
                        lemma_letters_prefix_le(letters@, i + 1);
                    }
                }
                return None;
            },
        };
        let next = match scaled.checked_add(digit) {
            Some(v) => v,
            None => {
                proof {
                    if all_lower(letters@) {
                        lemma_letters_prefix_le(letters@, i + 1);
                    }
                }
                return None;
            },
        };
        value = next;
        i = i + 1;
    }
    proof {
        assert(letters@.subrange(0, letters@.len() as int) =~= letters@);
        lemma_letters_nonneg(letters@);
    }
    value.checked_sub(1)
}

/// A decimal number, if the input is a non-empty run of digits that fits.
fn parse_unsigned_decimal(input: &[u8]) -> (value: Option<usize>)
    ensures
        value == spec_unsigned_decimal(input@),
{
    if input.len() == 0 {
        return None;
    }
    let mut value: usize = 0;
    let mut i: usize = 0;
    while i < input.len()
        invariant
            i <= input@.len(),
            input@.len() > 0,
            all_digits(input@.subrange(0, i as int)),
            value == digits_value(input@.subrange(0, i as int)),
        decreases input@.len() - i,
    {
        let byte = input[i];
        proof {
            assert(input@.subrange(0, i + 1).drop_last() =~= input@.subrange(0, i as int));
        }
        if !(0x30 <= byte && byte <= 0x39) {
            proof {
                assert(!all_digits(input@));
            }
            return None;
        }
        let scaled = match value.checked_mul(10) {
            Some(v) => v,
            None => {
                proof {
                    if all_digits(input@) {
                        lemma_digits_prefix_le(input@, i + 1);
                    }
                }
                return None;
            },
        };
        let next = match scaled.checked_add((byte - 0x30) as usize) {
            Some(v) => v,
            None => {
                proof {
                    if all_digits(input@) {
                        lemma_digits_prefix_le(input@, i + 1);
                    }
                }
                return None;
            },
        };
        value = next;
        i = i + 1;
    }
    proof {
        assert(input@.subrange(0, input@.len() as int) =~= input@);
    }
    Some(value)
}

/// A positive decimal number.
fn parse_positive_decimal(input: &[u8]) -> (value: Option<usize>)
    ensures
        value == spec_positive_decimal(input@),
{
    match parse_unsigned_decimal(input) {
        Some(v) => if v == 0 { None } else { Some(v) },
        None => None,
    }
}

/// Length of the run of bytes of `s` from `i` on that satisfy `lower` (letters) or digits.
pub open spec fn run_end(s: Seq<u8>, i: int, lower: bool) -> int
    decreases s.len() - i,
{
    if i < 0 || i >= s.len() {
        s.len() as int
    } else if (lower && is_lower(s[i])) || (!lower && is_digit(s[i])) {
        run_end(s, i + 1, lower)
    } else {
        i
    }
}

proof fn lemma_run_end(s: Seq<u8>, i: int, lower: bool)
    requires
        0 <= i <= s.len(),
    ensures
        i <= run_end(s, i, lower) <= s.len(),
        forall|j: int| i <= j < run_end(s, i, lower) ==> (if lower { is_lower(#[trigger] s[j]) } else { is_digit(s[j]) }),
        run_end(s, i, lower) < s.len() ==> !(if lower { is_lower(s[run_end(s, i, lower)]) } else { is_digit(s[run_end(s, i, lower)]) }),
    decreases s.len() - i,
{
    if i < s.len() && ((lower && is_lower(s[i])) || (!lower && is_digit(s[i]))) {
        lemma_run_end(s, i + 1, lower);
    }
}

fn letter_run(s: &[u8]) -> (end: usize)
    ensures
        end == run_end(s@, 0, true),
{
    let mut i: usize = 0;
    while i < s.len()
        invariant
            i <= s@.len(),
            run_end(s@, 0, true) == run_end(s@, i as int, true),
        decreases s@.len() - i,
    {
        if !(0x61 <= s[i] && s[i] <= 0x7a) {
            return i;
        }
        i = i + 1;
    }
    i
}

fn digit_run(s: &[u8]) -> (end: usize)
    ensures
        end == run_end(s@, 0, false),
{
    let mut i: usize = 0;
    while i < s.len()
        invariant
            i <= s@.len(),
            run_end(s@, 0, false) == run_end(s@, i as int, false),
        decreases s@.len() - i,
    {
        if !(0x30 <= s[i] && s[i] <= 0x39) {
            return i;
        }
        i = i + 1;
    }
    i
}

/// The number at the start of `s` and the index just past it.
pub open spec fn spec_decimal_prefix(s: Seq<u8>) -> Option<(usize, int)> {
    let end = run_end(s, 0, false);
    if s.len() == 0 || end == 0 {
        None
    } else {
        match spec_unsigned_decimal(s.subrange(0, end)) {
            Some(v) => Some((v, end)),
            None => None,
        }
    }
}

/// The number at the start of `input` and where the rest begins.
fn parse_decimal_prefix(input: &[u8]) -> (r: Option<(usize, usize)>)
    ensures
        match r {
            Some((v, e)) => spec_decimal_prefix(input@) == Some((v, e as int)) && e <= input@.len(),
            None => spec_decimal_prefix(input@) is None,
        },
{
    proof {
        lemma_run_end(input@, 0, false);
    }
    if input.len() == 0 {
        return None;
    }
    let end = digit_run(input);
    if end == 0 {
        return None;
    }
    match parse_unsigned_decimal(&input[0..end]) {
        Some(v) => Some((v, end)),
        None => None,
    }
}

} // verus!

verus! {

// ---------------------------------------------------------------------------
// Block device paths.

/// "/dev/sd"
pub open spec fn dev_sd() -> Seq<u8> {
    seq![0x2fu8, 0x64, 0x65, 0x76, 0x2f, 0x73, 0x64]
}

/// "/dev/nvm"
pub open spec fn dev_nvm() -> Seq<u8> {
    seq![0x2fu8, 0x64, 0x65, 0x76, 0x2f, 0x6e, 0x76, 0x6d]
}

/// "/dev/nvme"
pub open spec fn dev_nvme() -> Seq<u8> {
    dev_nvm().push(0x65)
}

/// A partition suffix `p<n>` after a disk name, or the disk itself when empty.
pub open spec fn spec_partition_suffix(device: usize, rest: Seq<u8>, marker: bool) -> Option<ParsedBlockPath> {
    if rest.len() == 0 {
        Some(ParsedBlockPath { device_index: device, partition_index: None })
    } else if marker && rest[0] != 0x70 {
        None
    } else {
        let digits = if marker { rest.subrange(1, rest.len() as int) } else { rest };
        match spec_positive_decimal(digits) {
            Some(k) => Some(ParsedBlockPath { device_index: device, partition_index: Some(k) }),
            None => None,
        }
    }
}

/// `/dev/sd<letters>[<partition>]`
pub open spec fn spec_parse_sd(p: Seq<u8>) -> Option<ParsedBlockPath> {
    if !has_prefix(p, dev_sd()) {
        None
    } else {
        let s = p.subrange(7, p.len() as int);
        let le = run_end(s, 0, true);
        if s.len() == 0 || le == 0 {
            None
        } else {
            match spec_decode_sd(s.subrange(0, le)) {
                None => None,
                Some(d) => spec_partition_suffix(d, s.subrange(le, s.len() as int), false),
            }
        }
    }
}

/// `/dev/nvme<disk>n1[p<partition>]`
pub open spec fn spec_parse_nvme(p: Seq<u8>) -> Option<ParsedBlockPath> {
    if !has_prefix(p, dev_nvme()) {
        None
    } else {
        let s = p.subrange(9, p.len() as int);
        match spec_decimal_prefix(s) {
            None => None,
            Some((d, e)) => {
                let a = s.subrange(e, s.len() as int);
                if a.len() == 0 || a[0] != 0x6e {
                    None
                } else {
                    let an = a.subrange(1, a.len() as int);
                    match spec_decimal_prefix(an) {
                        None => None,
                        Some((ns, e2)) => if ns != 1 {
                            None
                        } else {
                            spec_partition_suffix(d, an.subrange(e2, an.len() as int), true)
                        },
                    }
                }
            },
        }
    }
}

/// `/dev/nvm<disk>n[p<partition>]`
pub open spec fn spec_parse_nvm(p: Seq<u8>) -> Option<ParsedBlockPath> {
    if !has_prefix(p, dev_nvm()) {
        None
    } else {
        let s = p.subrange(8, p.len() as int);
        match spec_decimal_prefix(s) {
            None => None,
            Some((d, e)) => {
                let a = s.subrange(e, s.len() as int);
                if a.len() == 0 || a[0] != 0x6e {
                    None
                } else {
                    spec_partition_suffix(d, a.subrange(1, a.len() as int), true)
                }
            },
        }
    }
}

/// A block device path in any of its three spellings.
pub open spec fn spec_parse_block_path(p: Seq<u8>) -> Option<ParsedBlockPath> {
    match spec_parse_sd(p) {
        Some(r) => Some(r),
        None => match spec_parse_nvme(p) {
            Some(r) => Some(r),
            None => spec_parse_nvm(p),
        },
    }
}

fn partition_suffix(device: usize, rest: &[u8], marker: bool) -> (r: Option<ParsedBlockPath>)
    ensures
        r == spec_partition_suffix(device, rest@, marker),
{
    if rest.len() == 0 {
        return Some(ParsedBlockPath { device_index: device, partition_index: None });
    }
    if marker && rest[0] != 0x70 {
        return None;
    }
    let digits = if marker { &rest[1..rest.len()] } else { rest };
    match parse_positive_decimal(digits) {
        Some(k) => Some(ParsedBlockPath { device_index: device, partition_index: Some(k) }),
        None => None,
    }
}

fn parse_sd_path(path: &[u8]) -> (r: Option<ParsedBlockPath>)
    ensures
        r == spec_parse_sd(path@),
{
    let prefix = [0x2fu8, 0x64, 0x65, 0x76, 0x2f, 0x73, 0x64];
    proof {
        assert(prefix@ =~= dev_sd());
    }
    if !starts_with(path, &prefix) {
        return None;
    }
    let suffix = &path[7..path.len()];
    if suffix.len() == 0 {
        return None;
    }
    let letter_end = letter_run(suffix);
    proof {
        lemma_run_end(suffix@, 0, true);
    }
    if letter_end == 0 {
        return None;
    }
    let device_index = match decode_sd_letters(&suffix[0..letter_end]) {
        Some(d) => d,
        None => return None,
    };
    partition_suffix(device_index, &suffix[letter_end..suffix.len()], false)
}

fn parse_nvme_path(path: &[u8]) -> (r: Option<ParsedBlockPath>)
    ensures
        r == spec_parse_nvme(path@),
{
    let prefix = [0x2fu8, 0x64, 0x65, 0x76, 0x2f, 0x6e, 0x76, 0x6d, 0x65];
    proof {
        assert(prefix@ =~= dev_nvme());
    }
    if !starts_with(path, &prefix) {
        return None;
    }
    let suffix = &path[9..path.len()];
    let (device_index, after_device) = match parse_decimal_prefix(suffix) {
        Some(x) => x,
        None => return None,
    };
    let a = &suffix[after_device..suffix.len()];
    if a.len() == 0 || a[0] != 0x6e {
        return None;
    }
    let after_n = &a[1..a.len()];
    let (namespace, after_namespace) = match parse_decimal_prefix(after_n) {
        Some(x) => x,
        None => return None,
    };
    if namespace != 1 {
        return None;
    }
    partition_suffix(device_index, &after_n[after_namespace..after_n.len()], true)
}

fn parse_nvm_path(path: &[u8]) -> (r: Option<ParsedBlockPath>)
    ensures
        r == spec_parse_nvm(path@),
{
    let prefix = [0x2fu8, 0x64, 0x65, 0x76, 0x2f, 0x6e, 0x76, 0x6d];
    proof {
        assert(prefix@ =~= dev_nvm());
    }
    if !starts_with(path, &prefix) {
        return None;
    }
    let suffix = &path[8..path.len()];
    let (device_index, after_device) = match parse_decimal_prefix(suffix) {
        Some(x) => x,
        None => return None,
    };
    let a = &suffix[after_device..suffix.len()];
    if a.len() == 0 || a[0] != 0x6e {
        return None;
    }
    partition_suffix(device_index, &a[1..a.len()], true)
}

/// The disk and partition a block device path names.
pub fn parse_block_path(path: &[u8]) -> (r: Option<ParsedBlockPath>)
    ensures
        r == spec_parse_block_path(path@),
{
    match parse_sd_path(path) {
        Some(r) => Some(r),
        None => match parse_nvme_path(path) {
            Some(r) => Some(r),
            None => parse_nvm_path(path),
        },
    }
}

} // verus!

verus! {

// ---------------------------------------------------------------------------
// Device names.

/// Letters that name the disk with index `index`: `a`, ..., `z`, `aa`, ...
fn encode_sd_letters(index: usize) -> (letters: Vec<u8>)
    ensures
        letters@ == spec_encode_sd(index),
{
    let mut n = index.saturating_add(1);
    let ghost top = n as nat;
    let mut reversed: Vec<u8> = Vec::new();
    while n > 0
        invariant
            sd_letters(top) == sd_letters(n as nat) + reversed@.reverse(),
        decreases n,
    {
        let rem = (n - 1) % 26;
        proof {
            assert(sd_letters(n as nat) == sd_letters(((n - 1) / 26) as nat).push((0x61 + (n - 1) % 26) as u8));
            assert(reversed@.push((0x61 + rem) as u8).reverse() =~= seq![(0x61 + rem) as u8] + reversed@.reverse());
        }
        reversed.push(0x61 + rem as u8);
        n = (n - 1) / 26;
    }
    proof {
        assert(sd_letters(0) =~= Seq::<u8>::empty());
    }
    let mut letters: Vec<u8> = Vec::new();
    let mut i: usize = reversed.len();
    while i > 0
        invariant
            i <= reversed@.len(),
            letters@ == reversed@.subrange(i as int, reversed@.len() as int).reverse(),
        decreases i,
    {
        i = i - 1;
        letters.push(reversed[i]);
        proof {
            assert(reversed@.subrange(i as int, reversed@.len() as int).reverse() =~= reversed@.subrange(
                (i + 1) as int,
                reversed@.len() as int,
            ).reverse().push(reversed@[i as int]));
        }
    }
    proof {
        assert(reversed@.subrange(0, reversed@.len() as int) =~= reversed@);
        assert(letters@ =~= sd_letters(top));
    }
    letters
}

/// "sd" followed by the disk's letters.
pub open spec fn spec_sd_disk_name(index: usize) -> Seq<u8> {
    seq![0x73u8, 0x64] + spec_encode_sd(index)
}

/// "nvme<index>n1"
pub open spec fn spec_nvme_disk_name(index: usize) -> Seq<u8> {
    seq![0x6eu8, 0x76, 0x6d, 0x65] + decimal(index as nat) + seq![0x6eu8, 0x31]
}

/// "nvm<index>n"
pub open spec fn spec_nvm_disk_name(index: usize) -> Seq<u8> {
    seq![0x6eu8, 0x76, 0x6d] + decimal(index as nat) + seq![0x6eu8]
}

fn format_sd_disk_name(index: usize) -> (name: Vec<u8>)
    ensures
        name@ == spec_sd_disk_name(index),
{
    let mut name = vec![0x73u8, 0x64];
    let letters = encode_sd_letters(index);
    push_all(&mut name, letters.as_slice());
    name
}

fn format_nvme_disk_name(index: usize) -> (name: Vec<u8>)
    ensures
        name@ == spec_nvme_disk_name(index),
{
    let mut name = vec![0x6eu8, 0x76, 0x6d, 0x65];
    push_decimal(&mut name, index as u64);
    name.push(0x6e);
    name.push(0x31);
    proof {
        assert(name@ =~= spec_nvme_disk_name(index));
    }
    name
}

fn format_nvm_disk_name(index: usize) -> (name: Vec<u8>)
    ensures
        name@ == spec_nvm_disk_name(index),
{
    let mut name = vec![0x6eu8, 0x76, 0x6d];
    push_decimal(&mut name, index as u64);
    name.push(0x6e);
    proof {
        assert(name@ =~= spec_nvm_disk_name(index));
    }
    name
}

fn format_sd_partition_name(device_index: usize, partition_index: usize) -> (name: Vec<u8>)
    ensures
        name@ == spec_sd_disk_name(device_index) + decimal(partition_index as nat),
{
    let mut name = format_sd_disk_name(device_index);
    push_decimal(&mut name, partition_index as u64);
    name
}

fn format_nvme_partition_name(device_index: usize, partition_index: usize) -> (name: Vec<u8>)
    ensures
        name@ == spec_nvme_disk_name(device_index) + seq![0x70u8] + decimal(partition_index as nat),
{
    let mut name = format_nvme_disk_name(device_index);
    name.push(0x70);
    push_decimal(&mut name, partition_index as u64);
    name
}

fn format_nvm_partition_name(device_index: usize, partition_index: usize) -> (name: Vec<u8>)
    ensures
        name@ == spec_nvm_disk_name(device_index) + seq![0x70u8] + decimal(partition_index as nat),
{
    let mut name = format_nvm_disk_name(device_index);
    name.push(0x70);
    push_decimal(&mut name, partition_index as u64);
    name
}

// ---------------------------------------------------------------------------
// Laws of the disk names.

proof fn lemma_sd_letters_value(n: nat)
    ensures
        all_lower(sd_letters(n)),
        letters_value(sd_letters(n)) == n,
        n > 0 ==> sd_letters(n).len() > 0,
    decreases n,
{
    if n > 0 {
        let q = ((n - 1) / 26) as nat;
        lemma_sd_letters_value(q);
        let s = sd_letters(n);
        assert(s.drop_last() =~= sd_letters(q));
        assert(all_lower(s)) by {
            assert forall|i: int| 0 <= i < s.len() implies is_lower(#[trigger] s[i]) by {
                if i < s.len() - 1 {
                    assert(s[i] == sd_letters(q)[i]);
                }
            }
        }
    }
}

/// Decoding the letters of a disk name gives back the disk's index.
pub proof fn lemma_sd_letters_roundtrip(index: usize)
    requires
        index < usize::MAX,
    ensures
        spec_decode_sd(spec_encode_sd(index)) == Some(index),
{
    lemma_sd_letters_value((index + 1) as nat);
}

proof fn lemma_decimal_value(n: nat)
    ensures
        all_digits(decimal(n)),
        digits_value(decimal(n)) == n,
        decimal(n).len() > 0,
    decreases n,
{
    if n >= 10 {
        lemma_decimal_value(n / 10);
        let s = decimal(n);
        assert(s.drop_last() =~= decimal(n / 10));
        assert(s.last() == digit_byte((n % 10) as int));
        assert(s.last() - 0x30 == n % 10);
        assert(n == (n / 10) * 10 + n % 10);
        assert(digits_value(s) == digits_value(s.drop_last()) * 10 + (s.last() - 0x30));
        assert(digits_value(s) == n);
        assert(all_digits(s)) by {
            assert forall|i: int| 0 <= i < s.len() implies is_digit(#[trigger] s[i]) by {
                if i < s.len() - 1 {
                    assert(s[i] == decimal(n / 10)[i]);
                }
            }
        }
    } else {
        assert(decimal(n).drop_last() =~= Seq::<u8>::empty());
        assert(decimal(n).last() - 0x30 == n);
        assert(digits_value(decimal(n).drop_last()) == 0);
        assert(digits_value(decimal(n)) == digits_value(decimal(n).drop_last()) * 10 + (decimal(n).last() - 0x30));
    }
}

/// Parsing the decimal digits of a positive number gives back the number.
pub proof fn lemma_positive_decimal_roundtrip(n: usize)
    requires
        n > 0,
    ensures
        spec_positive_decimal(decimal(n as nat)) == Some(n),
{
    lemma_decimal_value(n as nat);
}

proof fn lemma_run_end_concat(a: Seq<u8>, b: Seq<u8>, lower: bool)
    requires
        forall|i: int| 0 <= i < a.len() ==> (if lower { is_lower(#[trigger] a[i]) } else { is_digit(a[i]) }),
        b.len() > 0 ==> !(if lower { is_lower(b[0]) } else { is_digit(b[0]) }),
    ensures
        run_end(a + b, 0, lower) == a.len(),
{
    let s = a + b;
    assert forall|k: int| 0 <= k <= a.len() implies run_end(s, k, lower) == a.len() by {
        lemma_run_end_from(s, k, a.len() as int, lower);
    }
}

proof fn lemma_run_end_from(s: Seq<u8>, k: int, stop: int, lower: bool)
    requires
        0 <= k <= stop <= s.len(),
        forall|i: int| k <= i < stop ==> (if lower { is_lower(#[trigger] s[i]) } else { is_digit(s[i]) }),
        stop < s.len() ==> !(if lower { is_lower(s[stop]) } else { is_digit(s[stop]) }),
    ensures
        run_end(s, k, lower) == stop,
    decreases stop - k,
{
    if k < stop {
        lemma_run_end_from(s, k + 1, stop, lower);
    }
}

/// The `/dev` name of a partition of an `sd` disk parses back to that disk and partition.
pub proof fn lemma_sd_partition_path_roundtrip(device: usize, partition: usize)
    requires
        device < usize::MAX,
        partition > 0,
    ensures
        spec_parse_block_path(seq![0x2fu8, 0x64, 0x65, 0x76, 0x2f] + spec_sd_disk_name(device) + decimal(
            partition as nat,
        )) == Some(ParsedBlockPath { device_index: device, partition_index: Some(partition) }),
{
    let letters = spec_encode_sd(device);
    let digits = decimal(partition as nat);
    let p = seq![0x2fu8, 0x64, 0x65, 0x76, 0x2f] + spec_sd_disk_name(device) + digits;
    lemma_sd_letters_value((device + 1) as nat);
    lemma_decimal_value(partition as nat);
    assert(p.subrange(0, 7) =~= dev_sd());
    let s = p.subrange(7, p.len() as int);
    assert(s =~= letters + digits);
    assert(is_digit(digits[0]));
    lemma_run_end_concat(letters, digits, true);
    assert(s.subrange(0, letters.len() as int) =~= letters);
    assert(s.subrange(letters.len() as int, s.len() as int) =~= digits);
}

/// The `/dev` name of an `sd` disk parses back to that disk.
pub proof fn lemma_sd_disk_path_roundtrip(device: usize)
    requires
        device < usize::MAX,
    ensures
        spec_parse_block_path(seq![0x2fu8, 0x64, 0x65, 0x76, 0x2f] + spec_sd_disk_name(device)) == Some(
            ParsedBlockPath { device_index: device, partition_index: None },
        ),
{
    let letters = spec_encode_sd(device);
    let p = seq![0x2fu8, 0x64, 0x65, 0x76, 0x2f] + spec_sd_disk_name(device);
    lemma_sd_letters_value((device + 1) as nat);
    assert(p.subrange(0, 7) =~= dev_sd());
    let s = p.subrange(7, p.len() as int);
    assert(s =~= letters + Seq::<u8>::empty());
    lemma_run_end_concat(letters, Seq::<u8>::empty(), true);
    assert(s.subrange(0, letters.len() as int) =~= letters);
    assert(s.subrange(letters.len() as int, s.len() as int) =~= Seq::<u8>::empty());
}

} // verus!

verus! {

// ---------------------------------------------------------------------------
// Disks and partitions.

/// Indices of the partitions of the disk with id `id`, in registry order.
pub open spec fn partitions_of(ps: Seq<PartitionInfo>, id: u16) -> Seq<int>
    decreases ps.len(),
{
    if ps.len() == 0 {
        Seq::empty()
    } else {
        let prev = partitions_of(ps.drop_last(), id);
        if ps.last().device_id == id {
            prev.push(ps.len() - 1)
        } else {
            prev
        }
    }
}

proof fn lemma_partitions_of_bounds(ps: Seq<PartitionInfo>, id: u16)
    ensures
        partitions_of(ps, id).len() <= ps.len(),
        forall|j: int| 0 <= j < partitions_of(ps, id).len() ==> 0 <= #[trigger] partitions_of(ps, id)[j] < ps.len()
            && ps[partitions_of(ps, id)[j]].device_id == id,
    decreases ps.len(),
{
    if ps.len() > 0 {
        lemma_partitions_of_bounds(ps.drop_last(), id);
        let prev = partitions_of(ps.drop_last(), id);
        assert forall|j: int| 0 <= j < prev.len() implies ps[prev[j]] == ps.drop_last()[prev[j]] by {}
    }
}

/// Number of partitions of the disk with id `id`.
fn count_device_partitions(blocks: &BlockRegistry, device_id: u16) -> (count: usize)
    ensures
        count == partitions_of(blocks.partitions@, device_id).len(),
{
    let ghost ps = blocks.partitions@;
    let mut count: usize = 0;
    let mut index: usize = 0;
    while index < blocks.partitions.len()
        invariant
            ps == blocks.partitions@,
            index <= ps.len(),
            count == partitions_of(ps.take(index as int), device_id).len(),
        decreases ps.len() - index,
    {
        proof {
            assert(ps.take(index + 1).drop_last() =~= ps.take(index as int));
            lemma_partitions_of_bounds(ps.take(index as int), device_id);
        }
        if blocks.partitions[index].device_id == device_id {
            count = count + 1;
        }
        index = index + 1;
    }
    proof {
        assert(ps.take(ps.len() as int) =~= ps);
    }
    count
}

/// Registry index of the `k`-th (1-based) partition of the disk with id `device_id`.
pub open spec fn spec_find_device_partition(ps: Seq<PartitionInfo>, device_id: u16, k: usize) -> Option<int> {
    let idx = partitions_of(ps, device_id);
    if 1 <= k <= idx.len() {
        Some(idx[k - 1])
    } else {
        None
    }
}

fn find_device_partition(blocks: &BlockRegistry, device_id: u16, k: usize) -> (index: Option<usize>)
    ensures
        match index {
            Some(i) => spec_find_device_partition(blocks.partitions@, device_id, k) == Some(i as int)
                && i < blocks.partitions@.len(),
            None => spec_find_device_partition(blocks.partitions@, device_id, k) is None,
        },
{
    let ghost ps = blocks.partitions@;
    proof {
        lemma_partitions_of_bounds(ps, device_id);
    }
    if k == 0 {
        return None;
    }
    let mut matched: usize = 0;
    let mut index: usize = 0;
    while index < blocks.partitions.len()
        invariant
            ps == blocks.partitions@,
            index <= ps.len(),
            k >= 1,
            matched == partitions_of(ps.take(index as int), device_id).len(),
            matched < k,
            forall|j: int| 0 <= j < matched ==> #[trigger] partitions_of(ps.take(index as int), device_id)[j]
                == partitions_of(ps, device_id)[j],
            matched <= partitions_of(ps, device_id).len(),
        decreases ps.len() - index,
    {
        proof {
            assert(ps.take(index + 1).drop_last() =~= ps.take(index as int));
            lemma_partitions_of_bounds(ps.take(index as int), device_id);
            lemma_partitions_prefix(ps, index as int + 1, device_id);
        }
        if blocks.partitions[index].device_id == device_id {
            matched = matched + 1;
            proof {
                assert(ps.take(index + 1).last() == ps[index as int]);
                assert(partitions_of(ps.take(index + 1), device_id) == partitions_of(ps.take(index as int), device_id).push(
                    index as int,
                ));
            }
            if matched == k {
                proof {
                    assert(partitions_of(ps.take(index + 1), device_id)[k - 1] == index as int);
                }
                return Some(index);
            }
        }
        index = index + 1;
    }
    proof {
        assert(ps.take(ps.len() as int) =~= ps);
    }
    None
}

proof fn lemma_partitions_prefix(ps: Seq<PartitionInfo>, n: int, id: u16)
    requires
        0 <= n <= ps.len(),
    ensures
        partitions_of(ps.take(n), id).len() <= partitions_of(ps, id).len(),
        forall|j: int| 0 <= j < partitions_of(ps.take(n), id).len() ==> #[trigger] partitions_of(ps.take(n), id)[j]
            == partitions_of(ps, id)[j],
    decreases ps.len() - n,
{
    if n < ps.len() {
        lemma_partitions_prefix(ps, n + 1, id);
        assert(ps.take(n + 1).drop_last() =~= ps.take(n));
        assert(ps.take(n + 1).last() == ps[n]);
        let a = partitions_of(ps.take(n), id);
        let b = partitions_of(ps.take(n + 1), id);
        assert(b == if ps[n].device_id == id { a.push(n) } else { a });
        assert forall|j: int| 0 <= j < a.len() implies #[trigger] a[j] == partitions_of(ps, id)[j] by {
            assert(a[j] == b[j]);
        }
    } else {
        assert(ps.take(n) =~= ps);
    }
}

/// The disk index a path names, when it names a whole disk that exists.
pub open spec fn spec_resolve_device(blocks: BlockRegistry, p: Seq<u8>) -> Option<usize> {
    if !blocks.initialized {
        None
    } else {
        match spec_parse_block_path(p) {
            Some(parsed) => if parsed.partition_index is None && parsed.device_index < blocks.devices@.len() {
                Some(parsed.device_index)
            } else {
                None
            },
            None => None,
        }
    }
}

/// The registry index of the partition a path names, when it exists.
pub open spec fn spec_resolve_partition(blocks: BlockRegistry, p: Seq<u8>) -> Option<int> {
    if !blocks.initialized {
        None
    } else {
        match spec_parse_block_path(p) {
            Some(parsed) => match parsed.partition_index {
                Some(k) => if parsed.device_index < blocks.devices@.len() {
                    spec_find_device_partition(
                        blocks.partitions@,
                        blocks.devices@[parsed.device_index as int].id,
                        k,
                    )
                } else {
                    None
                },
                None => None,
            },
            None => None,
        }
    }
}

fn resolve_block_device_path(blocks: &BlockRegistry, path: &[u8]) -> (r: Option<usize>)
    ensures
        r == spec_resolve_device(*blocks, path@),
{
    if !blocks.initialized {
        return None;
    }
    let parsed = match parse_block_path(path) {
        Some(p) => p,
        None => return None,
    };
    if parsed.partition_index.is_some() {
        return None;
    }
    if parsed.device_index < blocks.devices.len() {
        Some(parsed.device_index)
    } else {
        None
    }
}

fn resolve_block_partition_path(blocks: &BlockRegistry, path: &[u8]) -> (r: Option<usize>)
    ensures
        match r {
            Some(i) => spec_resolve_partition(*blocks, path@) == Some(i as int) && i < blocks.partitions@.len(),
            None => spec_resolve_partition(*blocks, path@) is None,
        },
{
    if !blocks.initialized {
        return None;
    }
    let parsed = match parse_block_path(path) {
        Some(p) => p,
        None => return None,
    };
    let k = match parsed.partition_index {
        Some(k) => k,
        None => return None,
    };
    if parsed.device_index >= blocks.devices.len() {
        return None;
    }
    let device_id = blocks.devices[parsed.device_index].id;
    find_device_partition(blocks, device_id, k)
}

/// Number of `/dev` nodes the block layer adds: three names per disk and three per partition.
pub open spec fn spec_dynamic_count(blocks: BlockRegistry) -> int {
    if !blocks.initialized {
        0
    } else {
        let d = if blocks.devices@.len() * 3 > usize::MAX { usize::MAX as int } else { (blocks.devices@.len() * 3) as int };
        let p = if blocks.partitions@.len() * 3 > usize::MAX { usize::MAX as int } else { (blocks.partitions@.len() * 3) as int };
        if d + p > usize::MAX { usize::MAX as int } else { d + p }
    }
}

fn dynamic_block_node_count(blocks: &BlockRegistry) -> (n: usize)
    ensures
        n == spec_dynamic_count(*blocks),
{
    if !blocks.initialized {
        return 0;
    }
    let device_count = blocks.devices.len();
    let partition_count = blocks.partitions.len();
    saturating_mul_usize(device_count, 3).saturating_add(saturating_mul_usize(partition_count, 3))
}

/// The counts of `/dev`: two directories and eight fixed nodes besides the block nodes.
pub open spec fn spec_devfs_summary(blocks: BlockRegistry) -> DevfsSummary {
    let nodes = if 8 + spec_dynamic_count(blocks) > usize::MAX { usize::MAX as int } else { 8 + spec_dynamic_count(blocks) };
    DevfsSummary { directory_count: 2, node_count: nodes as usize, entry_count: (2 + nodes) as usize }
}

/// Counts of `/dev`.
pub fn summary(blocks: &BlockRegistry) -> (s: DevfsSummary)
    requires
        spec_dynamic_count(*blocks) + 10 <= usize::MAX,
    ensures
        s == spec_devfs_summary(*blocks),
{
    let dynamic_nodes = dynamic_block_node_count(blocks);
    let node_count = 8usize.saturating_add(dynamic_nodes);
    DevfsSummary { directory_count: 2, node_count, entry_count: 2 + node_count }
}

} // verus!

verus! {

// ---------------------------------------------------------------------------
// Node kinds.

/// The eight fixed device nodes.
pub open spec fn static_nodes() -> Seq<Seq<u8>> {
    seq![
        "/dev/console".spec_bytes(),
        "/dev/tty0".spec_bytes(),
        "/dev/tty1".spec_bytes(),
        "/dev/tty2".spec_bytes(),
        "/dev/tty3".spec_bytes(),
        "/dev/null".spec_bytes(),
        "/dev/zero".spec_bytes(),
        "/dev/kmsg".spec_bytes(),
    ]
}

/// Position of the first fixed device node equal to `p`.
pub open spec fn spec_static_index(p: Seq<u8>) -> Option<int> {
    if p == static_nodes()[0] {
        Some(0)
    } else if p == static_nodes()[1] {
        Some(1)
    } else if p == static_nodes()[2] {
        Some(2)
    } else if p == static_nodes()[3] {
        Some(3)
    } else if p == static_nodes()[4] {
        Some(4)
    } else if p == static_nodes()[5] {
        Some(5)
    } else if p == static_nodes()[6] {
        Some(6)
    } else if p == static_nodes()[7] {
        Some(7)
    } else {
        None
    }
}

/// Position of `p` among the fixed device nodes.
fn static_node_index(p: &[u8]) -> (k: Option<usize>)
    ensures
        match k {
            Some(i) => i < 8 && static_nodes()[i as int] == p@ && spec_static_index(p@) == Some(i as int),
            None => forall|i: int| 0 <= i < 8 ==> static_nodes()[i] != p@,
        },
        k is None <==> spec_static_index(p@) is None,
{
    if bytes_eq(p, "/dev/console".as_bytes()) {
        return Some(0);
    }
    if bytes_eq(p, "/dev/tty0".as_bytes()) {
        return Some(1);
    }
    if bytes_eq(p, "/dev/tty1".as_bytes()) {
        return Some(2);
    }
    if bytes_eq(p, "/dev/tty2".as_bytes()) {
        return Some(3);
    }
    if bytes_eq(p, "/dev/tty3".as_bytes()) {
        return Some(4);
    }
    if bytes_eq(p, "/dev/null".as_bytes()) {
        return Some(5);
    }
    if bytes_eq(p, "/dev/zero".as_bytes()) {
        return Some(6);
    }
    if bytes_eq(p, "/dev/kmsg".as_bytes()) {
        return Some(7);
    }
    None
}

/// The `/dev` directory itself, with or without the trailing slash.
pub open spec fn is_dev_root(p: Seq<u8>) -> bool {
    p == "/dev".spec_bytes() || p == "/dev/".spec_bytes()
}

/// Kind of the node at `p`, if `/dev` has one there.
pub open spec fn spec_node_kind(blocks: BlockRegistry, p: Seq<u8>) -> Option<DevfsNodeKind> {
    if is_dev_root(p) {
        Some(DevfsNodeKind::Directory)
    } else if exists|i: int| 0 <= i < 8 && static_nodes()[i] == p {
        Some(DevfsNodeKind::Device)
    } else if spec_resolve_device(blocks, p) is Some || spec_resolve_partition(blocks, p) is Some {
        Some(DevfsNodeKind::Device)
    } else {
        None
    }
}

/// Kind of a node under `/dev`.
pub fn node_kind(blocks: &BlockRegistry, path: &str) -> (kind: Option<DevfsNodeKind>)
    ensures
        kind == spec_node_kind(*blocks, path.spec_bytes()),
{
    node_kind_bytes(blocks, path.as_bytes())
}

/// Kind of the node at the path `p`, given as bytes.
pub fn node_kind_bytes(blocks: &BlockRegistry, p: &[u8]) -> (kind: Option<DevfsNodeKind>)
    ensures
        kind == spec_node_kind(*blocks, p@),
{
    if bytes_eq(p, "/dev".as_bytes()) || bytes_eq(p, "/dev/".as_bytes()) {
        return Some(DevfsNodeKind::Directory);
    }
    if static_node_index(p).is_some() {
        return Some(DevfsNodeKind::Device);
    }
    if resolve_block_device_path(blocks, p).is_some() {
        return Some(DevfsNodeKind::Device);
    }
    if resolve_block_partition_path(blocks, p).is_some() {
        return Some(DevfsNodeKind::Device);
    }
    None
}

} // verus!

verus! {

// ---------------------------------------------------------------------------
// Node contents.

/// One `label value` line.
pub open spec fn kv(label: Seq<u8>, value: Seq<u8>) -> Seq<u8> {
    label + value + seq![0x0au8]
}

/// The three names of disk `d`, one per line.
pub open spec fn device_lines(d: usize) -> Seq<u8> {
    spec_sd_disk_name(d) + seq![0x0au8] + spec_nvme_disk_name(d) + seq![0x0au8] + spec_nvm_disk_name(d) + seq![0x0au8]
}

/// The three names of partition `k` of disk `d`, one per line.
pub open spec fn partition_lines(d: usize, k: nat) -> Seq<u8> {
    spec_sd_disk_name(d) + decimal(k) + seq![0x0au8] + spec_nvme_disk_name(d) + seq![0x70u8] + decimal(k) + seq![0x0au8]
        + spec_nvm_disk_name(d) + seq![0x70u8] + decimal(k) + seq![0x0au8]
}

/// The names of the partitions of disk `d` (id `id`) among `ps`, numbered from 1 in registry order.
pub open spec fn partitions_listing(ps: Seq<PartitionInfo>, id: u16, d: usize) -> Seq<u8>
    decreases ps.len(),
{
    if ps.len() == 0 {
        Seq::empty()
    } else {
        let prev = partitions_listing(ps.drop_last(), id, d);
        if ps.last().device_id == id {
            prev + partition_lines(d, partitions_of(ps.drop_last(), id).len() + 1)
        } else {
            prev
        }
    }
}

/// The names of the disks `ds` and of their partitions.
pub open spec fn block_listing(ds: Seq<BlockDeviceInfo>, ps: Seq<PartitionInfo>) -> Seq<u8>
    decreases ds.len(),
{
    if ds.len() == 0 {
        Seq::empty()
    } else {
        block_listing(ds.drop_last(), ps) + device_lines((ds.len() - 1) as usize) + partitions_listing(
            ps,
            ds.last().id,
            (ds.len() - 1) as usize,
        )
    }
}

fn push_line(out: &mut Vec<u8>, line: &[u8])
    ensures
        final(out)@ == old(out)@ + line@ + seq![0x0au8],
{
    push_all(out, line);
    out.push(0x0a);
    assert(final(out)@ =~= old(out)@ + line@ + seq![0x0au8]);
}

fn append_block_nodes(blocks: &BlockRegistry, text: &mut Vec<u8>)
    requires
        blocks.partitions@.len() < usize::MAX,
    ensures
        final(text)@ == old(text)@ + block_listing(blocks.devices@, blocks.partitions@),
{
    let ghost ds = blocks.devices@;
    let ghost ps = blocks.partitions@;
    let mut device_index: usize = 0;
    while device_index < blocks.devices.len()
        invariant
            ds == blocks.devices@,
            ps == blocks.partitions@,
            ps.len() < usize::MAX,
            device_index <= ds.len(),
            text@ == old(text)@ + block_listing(ds.take(device_index as int), ps),
        decreases ds.len() - device_index,
    {
        proof {
            assert(ds.take(device_index + 1).drop_last() =~= ds.take(device_index as int));
        }
        let ghost before = text@;
        let device_id = blocks.devices[device_index].id;
        let sd = format_sd_disk_name(device_index);
        let nvme = format_nvme_disk_name(device_index);
        let nvm = format_nvm_disk_name(device_index);
        push_line(text, sd.as_slice());
        push_line(text, nvme.as_slice());
        push_line(text, nvm.as_slice());
        proof {
            assert(text@ =~= before + device_lines(device_index));
        }
        let ghost mid = text@;
        let mut partition_index: usize = 1;
        let mut global_partition_index: usize = 0;
        while global_partition_index < blocks.partitions.len()
            invariant
                ps == blocks.partitions@,
                ps.len() < usize::MAX,
                global_partition_index <= ps.len(),
                partition_index == partitions_of(ps.take(global_partition_index as int), device_id).len() + 1,
                partition_index <= global_partition_index + 1,
                text@ == mid + partitions_listing(ps.take(global_partition_index as int), device_id, device_index),
            decreases ps.len() - global_partition_index,
        {
            proof {
                assert(ps.take(global_partition_index + 1).drop_last() =~= ps.take(global_partition_index as int));
                lemma_partitions_of_bounds(ps.take(global_partition_index as int), device_id);
            }
            if blocks.partitions[global_partition_index].device_id == device_id {
                let ghost before_part = text@;
                let a = format_sd_partition_name(device_index, partition_index);
                let b = format_nvme_partition_name(device_index, partition_index);
                let c = format_nvm_partition_name(device_index, partition_index);
                push_line(text, a.as_slice());
                push_line(text, b.as_slice());
                push_line(text, c.as_slice());
                proof {
                    assert(text@ =~= before_part + partition_lines(device_index, partition_index as nat));
                }
                partition_index = partition_index + 1;
            }
            global_partition_index = global_partition_index + 1;
        }
        proof {
            assert(ps.take(ps.len() as int) =~= ps);
            assert(ds.take(device_index + 1).last() == ds[device_index as int]);
            assert(text@ =~= old(text)@ + block_listing(ds.take(device_index + 1), ps));
        }
        device_index = device_index + 1;
    }
    proof {
        assert(ds.take(ds.len() as int) =~= ds);
    }
}

/// The `/dev` listing: the fixed nodes, then the block nodes when the block layer is up.
pub open spec fn spec_render_root(blocks: BlockRegistry) -> Seq<u8> {
    "console\ntty0\ntty1\ntty2\ntty3\nnull\nzero\nkmsg\n".spec_bytes() + if blocks.initialized {
        block_listing(blocks.devices@, blocks.partitions@)
    } else {
        Seq::empty()
    }
}

fn render_root(blocks: &BlockRegistry) -> (text: Vec<u8>)
    requires
        blocks.partitions@.len() < usize::MAX,
    ensures
        text@ == spec_render_root(*blocks),
{
    let mut text: Vec<u8> = Vec::new();
    push_str(&mut text, "console\ntty0\ntty1\ntty2\ntty3\nnull\nzero\nkmsg\n");
    if blocks.initialized {
        append_block_nodes(blocks, &mut text);
    }
    proof {
        assert(text@ =~= spec_render_root(*blocks));
    }
    text
}

/// What `/dev` remembers from its mount.
#[derive(Copy, Clone, PartialEq, Eq, Structural, Debug)]
pub struct DevfsState {
    pub boot_console_id: u32,
    pub boot_output_count: u8,
}

/// The `/dev` mount.
pub struct Devfs {
    pub state: Option<DevfsState>,
}

impl Devfs {
    /// `/dev` before it is mounted.
    pub fn new() -> (d: Self)
        ensures
            d.state is None,
    {
        Devfs { state: None }
    }
}

/// The text of a console node.
pub open spec fn spec_render_console(state: DevfsState, path: Seq<u8>, tty: TtyStats) -> Seq<u8> {
    kv("path ".spec_bytes(), path) + "kind tty-console\n".spec_bytes() + kv(
        "console_id ".spec_bytes(),
        decimal(tty.console_id as nat),
    ) + kv("outputs ".spec_bytes(), decimal(tty.output_count as nat)) + kv(
        "bytes ".spec_bytes(),
        decimal(tty.bytes_written as nat),
    ) + kv("lines ".spec_bytes(), decimal(tty.lines_written as nat)) + kv(
        "boot_console_id ".spec_bytes(),
        decimal(state.boot_console_id as nat),
    ) + kv("boot_outputs ".spec_bytes(), decimal(state.boot_output_count as nat))
}

fn push_kv_decimal(out: &mut Vec<u8>, label: &str, value: u64)
    ensures
        final(out)@ == old(out)@ + kv(label.spec_bytes(), decimal(value as nat)),
{
    push_str(out, label);
    push_decimal(out, value);
    out.push(0x0a);
    assert(final(out)@ =~= old(out)@ + kv(label.spec_bytes(), decimal(value as nat)));
}

fn render_console(state: &DevfsState, path: &[u8], tty: &TtyStats) -> (text: Vec<u8>)
    ensures
        text@ == spec_render_console(*state, path@, *tty),
{
    let mut text: Vec<u8> = Vec::new();
    push_str(&mut text, "path ");
    push_line(&mut text, path);
    push_str(&mut text, "kind tty-console\n");
    push_kv_decimal(&mut text, "console_id ", tty.console_id as u64);
    push_kv_decimal(&mut text, "outputs ", tty.output_count as u64);
    push_kv_decimal(&mut text, "bytes ", tty.bytes_written);
    push_kv_decimal(&mut text, "lines ", tty.lines_written);
    push_kv_decimal(&mut text, "boot_console_id ", state.boot_console_id as u64);
    push_kv_decimal(&mut text, "boot_outputs ", state.boot_output_count as u64);
    proof {
        assert(text@ =~= spec_render_console(*state, path@, *tty));
    }
    text
}

pub open spec fn spec_render_null() -> Seq<u8> {
    "path /dev/null\nkind sink\nreads eof\nwrites discard\n".spec_bytes()
}

pub open spec fn spec_render_zero() -> Seq<u8> {
    "path /dev/zero\nkind source\nreads zero-fill\nwrites discard\n".spec_bytes()
}

pub open spec fn spec_render_kmsg() -> Seq<u8> {
    "path /dev/kmsg\nkind kernel-log\nwrites append\nreads snapshot-unavailable\n".spec_bytes()
}

fn render_null() -> (text: Vec<u8>)
    ensures
        text@ == spec_render_null(),
{
    let mut text: Vec<u8> = Vec::new();
    push_str(&mut text, "path /dev/null\nkind sink\nreads eof\nwrites discard\n");
    text
}

fn render_zero() -> (text: Vec<u8>)
    ensures
        text@ == spec_render_zero(),
{
    let mut text: Vec<u8> = Vec::new();
    push_str(&mut text, "path /dev/zero\nkind source\nreads zero-fill\nwrites discard\n");
    text
}

fn render_kmsg() -> (text: Vec<u8>)
    ensures
        text@ == spec_render_kmsg(),
{
    let mut text: Vec<u8> = Vec::new();
    push_str(&mut text, "path /dev/kmsg\nkind kernel-log\nwrites append\nreads snapshot-unavailable\n");
    text
}

} // verus!

verus! {

/// The text of a disk node.
pub open spec fn spec_render_block_device(path: Seq<u8>, dev: BlockDeviceInfo, partitions: nat) -> Seq<u8> {
    kv("path ".spec_bytes(), path) + "kind block-device\n".spec_bytes() + kv("id ".spec_bytes(), decimal(dev.id as nat))
        + kv("driver ".spec_bytes(), dev.driver_name@) + kv("driver-kind ".spec_bytes(), dev.driver_kind@) + kv(
        "name ".spec_bytes(),
        dev.name@,
    ) + kv("read-only ".spec_bytes(), yes_no_bytes(dev.read_only)) + kv(
        "sector-bytes ".spec_bytes(),
        decimal(dev.sector_size as nat),
    ) + kv("sectors ".spec_bytes(), decimal(dev.sector_count as nat)) + kv(
        "size-bytes ".spec_bytes(),
        decimal(dev.size_bytes as nat),
    ) + kv("partitions ".spec_bytes(), decimal(partitions))
}

fn push_kv_bytes(out: &mut Vec<u8>, label: &str, value: &[u8])
    ensures
        final(out)@ == old(out)@ + kv(label.spec_bytes(), value@),
{
    push_str(out, label);
    push_all(out, value);
    out.push(0x0a);
    assert(final(out)@ =~= old(out)@ + kv(label.spec_bytes(), value@));
}

fn render_block_device(blocks: &BlockRegistry, path: &[u8], index: usize) -> (text: Vec<u8>)
    requires
        index < blocks.devices@.len(),
    ensures
        text@ == spec_render_block_device(
            path@,
            blocks.devices@[index as int],
            partitions_of(blocks.partitions@, blocks.devices@[index as int].id).len(),
        ),
{
    let device = &blocks.devices[index];
    let partition_count = count_device_partitions(blocks, device.id);
    let mut text: Vec<u8> = Vec::new();
    push_kv_bytes(&mut text, "path ", path);
    push_str(&mut text, "kind block-device\n");
    push_kv_decimal(&mut text, "id ", device.id as u64);
    push_kv_bytes(&mut text, "driver ", device.driver_name.as_slice());
    push_kv_bytes(&mut text, "driver-kind ", device.driver_kind.as_slice());
    push_kv_bytes(&mut text, "name ", device.name.as_slice());
    push_str(&mut text, "read-only ");
    push_yes_no(&mut text, device.read_only);
    text.push(0x0a);
    push_kv_decimal(&mut text, "sector-bytes ", device.sector_size);
    push_kv_decimal(&mut text, "sectors ", device.sector_count);
    push_kv_decimal(&mut text, "size-bytes ", device.size_bytes);
    push_kv_decimal(&mut text, "partitions ", partition_count as u64);
    proof {
        assert(text@ =~= spec_render_block_device(path@, *device, partition_count as nat));
    }
    text
}

/// A GUID in its textual form: hexadecimal bytes with dashes before bytes 4, 6, 8 and 10.
pub open spec fn guid_text(g: Seq<u8>, n: int) -> Seq<u8>
    decreases n,
{
    if n <= 0 {
        Seq::empty()
    } else {
        guid_text(g, n - 1) + (if n - 1 == 4 || n - 1 == 6 || n - 1 == 8 || n - 1 == 10 {
            seq![0x2du8]
        } else {
            Seq::empty()
        }) + hex_fixed(g[n - 1] as nat, 2)
    }
}

pub fn push_guid(out: &mut Vec<u8>, guid: &[u8; 16])
    ensures
        final(out)@ == old(out)@ + guid_text(guid@, 16),
{
    let mut index: usize = 0;
    while index < 16
        invariant
            index <= 16,
            guid@.len() == 16,
            out@ == old(out)@ + guid_text(guid@, index as int),
        decreases 16 - index,
    {
        let ghost before = out@;
        if index == 4 || index == 6 || index == 8 || index == 10 {
            out.push(0x2d);
        }
        push_hex_byte(out, guid[index]);
        proof {
            assert(out@ =~= old(out)@ + guid_text(guid@, index + 1));
        }
        index = index + 1;
    }
}

/// The lines of a partition node that depend on its partition table.
pub open spec fn spec_partition_table_lines(p: PartitionInfo) -> Seq<u8> {
    match p.table_kind {
        PartitionTableKind::Mbr => kv("mbr-index ".spec_bytes(), decimal(p.mbr_index as nat)) + kv(
            "mbr-type 0x".spec_bytes(),
            hex_fixed(p.partition_type as nat, 2),
        ) + kv("bootable ".spec_bytes(), yes_no_bytes(p.bootable)),
        PartitionTableKind::Gpt => kv("gpt-index ".spec_bytes(), decimal(p.gpt_index as nat)) + kv(
            "gpt-type-guid ".spec_bytes(),
            guid_text(p.gpt_type_guid@, 16),
        ) + kv("gpt-partition-guid ".spec_bytes(), guid_text(p.gpt_partition_guid@, 16)),
    }
}

/// Name of a partition table kind, as bytes.
pub open spec fn table_kind_bytes(k: PartitionTableKind) -> Seq<u8> {
    match k {
        PartitionTableKind::Mbr => "mbr".spec_bytes(),
        PartitionTableKind::Gpt => "gpt".spec_bytes(),
    }
}

/// The text of a partition node.
pub open spec fn spec_render_block_partition(path: Seq<u8>, p: PartitionInfo) -> Seq<u8> {
    kv("path ".spec_bytes(), path) + "kind block-partition\n".spec_bytes() + kv("id ".spec_bytes(), decimal(p.id as nat))
        + kv("device-id ".spec_bytes(), decimal(p.device_id as nat)) + kv("table ".spec_bytes(), table_kind_bytes(p.table_kind))
        + kv("lba-start ".spec_bytes(), decimal(p.start_lba as nat)) + kv(
        "sectors ".spec_bytes(),
        decimal(p.sector_count as nat),
    ) + kv(
        "size-bytes ".spec_bytes(),
        decimal(if p.sector_count * 512 > u64::MAX { u64::MAX as nat } else { (p.sector_count * 512) as nat }),
    ) + spec_partition_table_lines(p)
}

fn push_partition_table_lines(text: &mut Vec<u8>, partition: &PartitionInfo)
    ensures
        final(text)@ == old(text)@ + spec_partition_table_lines(*partition),
{
    match partition.table_kind {
        PartitionTableKind::Mbr => {
            push_kv_decimal(text, "mbr-index ", partition.mbr_index as u64);
            push_str(text, "mbr-type 0x");
            push_hex_byte(text, partition.partition_type);
            text.push(0x0a);
            push_str(text, "bootable ");
            push_yes_no(text, partition.bootable);
            text.push(0x0a);
        },
        PartitionTableKind::Gpt => {
            push_kv_decimal(text, "gpt-index ", partition.gpt_index as u64);
            push_str(text, "gpt-type-guid ");
            push_guid(text, &partition.gpt_type_guid);
            text.push(0x0a);
            push_str(text, "gpt-partition-guid ");
            push_guid(text, &partition.gpt_partition_guid);
            text.push(0x0a);
        },
    }
    assert(final(text)@ =~= old(text)@ + spec_partition_table_lines(*partition));
}

fn render_block_partition(path: &[u8], partition: &PartitionInfo) -> (text: Vec<u8>)
    ensures
        text@ == spec_render_block_partition(path@, *partition),
{
    let mut text: Vec<u8> = Vec::new();
    push_kv_bytes(&mut text, "path ", path);
    push_str(&mut text, "kind block-partition\n");
    push_kv_decimal(&mut text, "id ", partition.id as u64);
    push_kv_decimal(&mut text, "device-id ", partition.device_id as u64);
    push_kv_bytes(&mut text, "table ", partition.table_kind.as_str().as_bytes());
    push_kv_decimal(&mut text, "lba-start ", partition.start_lba);
    push_kv_decimal(&mut text, "sectors ", partition.sector_count);
    push_kv_decimal(&mut text, "size-bytes ", crate::num::saturating_mul_u64(partition.sector_count, 512));
    push_partition_table_lines(&mut text, partition);
    proof {
        assert(text@ =~= spec_render_block_partition(path@, *partition));
    }
    text
}

} // verus!

verus! {

/// The bytes of the node at `p` of a mounted `/dev`, if it has one.
pub open spec fn spec_read_bytes(state: DevfsState, blocks: BlockRegistry, tty: TtyStats, p: Seq<u8>) -> Option<Seq<u8>> {
    if is_dev_root(p) {
        Some(spec_render_root(blocks))
    } else if spec_static_index(p) is Some {
        let i = spec_static_index(p)->Some_0;
        if i <= 4 {
            Some(spec_render_console(state, p, tty))
        } else if i == 5 {
            Some(spec_render_null())
        } else if i == 6 {
            Some(spec_render_zero())
        } else {
            Some(spec_render_kmsg())
        }
    } else {
        match spec_resolve_device(blocks, p) {
            Some(d) => Some(
                spec_render_block_device(
                    p,
                    blocks.devices@[d as int],
                    partitions_of(blocks.partitions@, blocks.devices@[d as int].id).len(),
                ),
            ),
            None => match spec_resolve_partition(blocks, p) {
                Some(k) => Some(spec_render_block_partition(p, blocks.partitions@[k])),
                None => None,
            },
        }
    }
}

/// The bytes of a node under `/dev`, or `None` when `/dev` is not mounted or has no such node.
pub fn render_node(devfs: &Devfs, blocks: &BlockRegistry, tty: &TtyStats, p: &[u8]) -> (bytes: Option<Vec<u8>>)
    requires
        blocks.partitions@.len() < usize::MAX,
    ensures
        match devfs.state {
            None => bytes is None,
            Some(st) => match spec_read_bytes(st, *blocks, *tty, p@) {
                None => bytes is None,
                Some(b) => bytes matches Some(v) && v@ == b,
            },
        },
{
    let state = match &devfs.state {
        Some(st) => st,
        None => return None,
    };
    let bytes = if bytes_eq(p, "/dev".as_bytes()) || bytes_eq(p, "/dev/".as_bytes()) {
        render_root(blocks)
    } else {
        match static_node_index(p) {
            Some(i) => {
                if i <= 4 {
                    render_console(state, p, tty)
                } else if i == 5 {
                    render_null()
                } else if i == 6 {
                    render_zero()
                } else {
                    render_kmsg()
                }
            },
            None => {
                if let Some(d) = resolve_block_device_path(blocks, p) {
                    render_block_device(blocks, p, d)
                } else if let Some(k) = resolve_block_partition_path(blocks, p) {
                    render_block_partition(p, &blocks.partitions[k])
                } else {
                    return None;
                }
            },
        }
    };
    Some(bytes)
}

/// The text of a node under `/dev`, or `None` when `/dev` is not mounted or has no such node.
pub fn read(devfs: &Devfs, blocks: &BlockRegistry, tty: &TtyStats, path: &str) -> (text: Option<String>)
    requires
        blocks.partitions@.len() < usize::MAX,
    ensures
        match devfs.state {
            None => text is None,
            Some(st) => match spec_read_bytes(st, *blocks, *tty, path.spec_bytes()) {
                None => text is None,
                Some(b) => text matches Some(t) && t@ == lossy_utf8(b) && (all_ascii(b) ==> t@ == ascii_chars(b)),
            },
        },
{
    match render_node(devfs, blocks, tty, path.as_bytes()) {
        Some(bytes) => Some(string_from_bytes_lossy(bytes.as_slice())),
        None => None,
    }
}

/// Mounts `/dev`, remembering the console it started with.
pub fn initialize(devfs: &mut Devfs, blocks: &BlockRegistry, tty: &TtyStats) -> (result: Result<DevfsSummary, DevfsError>)
    requires
        spec_dynamic_count(*blocks) + 10 <= usize::MAX,
    ensures
        old(devfs).state is Some ==> result == Err::<DevfsSummary, DevfsError>(DevfsError::AlreadyInitialized)
            && final(devfs).state == old(devfs).state,
        old(devfs).state is None ==> result == Ok::<DevfsSummary, DevfsError>(spec_devfs_summary(*blocks))
            && final(devfs).state == Some(
            DevfsState { boot_console_id: tty.console_id, boot_output_count: tty.output_count },
        ),
{
    if devfs.state.is_some() {
        return Err(DevfsError::AlreadyInitialized);
    }
    devfs.state = Some(DevfsState { boot_console_id: tty.console_id, boot_output_count: tty.output_count });
    Ok(summary(blocks))
}

} // verus!
