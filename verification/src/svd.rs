//! The register-layout description extracted from a chip's SVD file, as
//! plain values: peripherals with base addresses, registers, register
//! arrays, and clusters. The XML parsing itself lives outside; this module
//! owns the expansion of arrays and clusters into a flat register list.

use vstd::prelude::*;

verus! {

/// One register: its name and its offset within the peripheral block.
pub struct SvdRegister {
    pub name: String,
    pub address_offset: u32,
}

/// A register entry as the description gives it: a single register, or an
/// array enumerated by index with a fixed offset stride and one name per
/// element.
pub enum SvdRegisterEntry {
    Single(SvdRegister),
    Array { names: Vec<String>, first_offset: u32, dim_increment: u32 },
}

/// A cluster of registers: either a single cluster (registers used at their
/// own offsets) or a cluster array, enumerated by a name suffix per element
/// and an offset stride.
pub enum SvdClusterEntry {
    Single { registers: Vec<SvdRegisterEntry> },
    Array {
        registers: Vec<SvdRegisterEntry>,
        suffixes: Vec<String>,
        first_offset: u32,
        dim_increment: u32,
    },
}

pub struct SvdPeripheral {
    pub name: String,
    pub base_address: u32,
    pub derived_from: Option<String>,
    pub registers: Vec<SvdRegisterEntry>,
    pub clusters: Vec<SvdClusterEntry>,
}

pub struct SvdDevice {
    pub peripherals: Vec<SvdPeripheral>,
}

/// The flat `(name, offset)` pairs of one entry, shifted by `shift` with
/// `suffix` appended (the enclosing cluster element, if any). Offsets wrap
/// in 32 bits.
pub open spec fn entry_regs(e: SvdRegisterEntry, shift: int, suffix: Seq<char>) -> Seq<
    (Seq<char>, u32),
> {
    match e {
        SvdRegisterEntry::Single(r) => seq![
            (r.name@ + suffix, ((r.address_offset + shift) % 0x1_0000_0000) as u32),
        ],
        SvdRegisterEntry::Array { names, first_offset, dim_increment } => Seq::new(
            names@.len(),
            |k: int|
                (
                    names@[k]@ + suffix,
                    ((first_offset + k * dim_increment + shift) % 0x1_0000_0000) as u32,
                ),
        ),
    }
}

/// The flat pairs of a run of entries, from index `j` on.
pub open spec fn entries_regs(
    es: Seq<SvdRegisterEntry>,
    shift: int,
    suffix: Seq<char>,
    j: int,
) -> Seq<(Seq<char>, u32)>
    decreases es.len() - j,
{
    if j < 0 || j >= es.len() {
        Seq::empty()
    } else {
        entry_regs(es[j], shift, suffix) + entries_regs(es, shift, suffix, j + 1)
    }
}

/// The flat pairs of the elements of a cluster array, from element `k` on:
/// element `k` shifts its registers by `first + k * increment` and appends
/// its suffix.
pub open spec fn cluster_array_regs(
    registers: Seq<SvdRegisterEntry>,
    suffixes: Seq<String>,
    first_offset: u32,
    dim_increment: u32,
    k: int,
) -> Seq<(Seq<char>, u32)>
    decreases suffixes.len() - k,
{
    if k < 0 || k >= suffixes.len() {
        Seq::empty()
    } else {
        entries_regs(registers, (first_offset + k * dim_increment) % 0x1_0000_0000, suffixes[k]@, 0)
            + cluster_array_regs(registers, suffixes, first_offset, dim_increment, k + 1)
    }
}

/// The flat pairs of one cluster entry.
pub open spec fn cluster_regs(c: SvdClusterEntry) -> Seq<(Seq<char>, u32)> {
    match c {
        SvdClusterEntry::Single { registers } => entries_regs(registers@, 0, Seq::empty(), 0),
        SvdClusterEntry::Array { registers, suffixes, first_offset, dim_increment } =>
            cluster_array_regs(registers@, suffixes@, first_offset, dim_increment, 0),
    }
}

/// The flat pairs of a run of clusters, from index `j` on.
pub open spec fn clusters_regs(cs: Seq<SvdClusterEntry>, j: int) -> Seq<(Seq<char>, u32)>
    decreases cs.len() - j,
{
    if j < 0 || j >= cs.len() {
        Seq::empty()
    } else {
        cluster_regs(cs[j]) + clusters_regs(cs, j + 1)
    }
}

/// Everything a peripheral's description expands to: its own registers
/// first, then each cluster's.
pub open spec fn peripheral_regs(p: SvdPeripheral) -> Seq<(Seq<char>, u32)> {
    entries_regs(p.registers@, 0, Seq::empty(), 0) + clusters_regs(p.clusters@, 0)
}

/// The `(name, offset)` view of a flat register list.
pub open spec fn regs_view(v: Seq<SvdRegister>) -> Seq<(Seq<char>, u32)> {
    v.map_values(|r: SvdRegister| (r.name@, r.address_offset))
}

/// Array lengths stay within 32 bits, so index arithmetic matches the
/// 32-bit wrapping the hardware description uses.
pub open spec fn entry_ok(e: SvdRegisterEntry) -> bool {
    match e {
        SvdRegisterEntry::Single(_) => true,
        SvdRegisterEntry::Array { names, .. } => names.len() < 0x1_0000_0000,
    }
}

pub open spec fn entries_ok(es: Seq<SvdRegisterEntry>) -> bool {
    forall|i: int| 0 <= i < es.len() ==> entry_ok(#[trigger] es[i])
}

pub open spec fn peripheral_ok(p: SvdPeripheral) -> bool {
    &&& entries_ok(p.registers@)
    &&& forall|j: int|
        0 <= j < p.clusters.len() ==> match #[trigger] p.clusters@[j] {
            SvdClusterEntry::Single { registers } => entries_ok(registers@),
            SvdClusterEntry::Array { registers, suffixes, .. } => entries_ok(registers@)
                && suffixes.len() < 0x1_0000_0000,
        }
}

/// 32-bit wrapping addition is addition modulo `2^32`.
proof fn lemma_wrap_add(x: u32, y: u32)
    ensures
        vstd::wrapping::u32_specs::wrapping_add(x, y) == ((x + y) % 0x1_0000_0000) as u32,
{
    if x + y > u32::MAX {
        assert((x + y) % 0x1_0000_0000 == x + y - 0x1_0000_0000) by (nonlinear_arith)
            requires
                0x1_0000_0000 <= x + y < 0x2_0000_0000,
        ;
    } else {
        assert((x + y) % 0x1_0000_0000 == x + y) by (nonlinear_arith)
            requires
                0 <= x + y < 0x1_0000_0000,
        ;
    }
}

/// The 32-bit wrap of a sum distributes over a pre-wrapped addend.
proof fn lemma_mod_add_chain(a: int, b: int, c: int)
    requires
        a >= 0,
        b >= 0,
        c >= 0,
    ensures
        (((a + b % 0x1_0000_0000) % 0x1_0000_0000) + c) % 0x1_0000_0000 == (a + b + c)
            % 0x1_0000_0000,
{
    let m = 0x1_0000_0000int;
    vstd::arithmetic::div_mod::lemma_add_mod_noop(a, b, m);
    vstd::arithmetic::div_mod::lemma_add_mod_noop((a + b % m) % m, c, m);
    vstd::arithmetic::div_mod::lemma_add_mod_noop(a + b % m, c, m);
    vstd::arithmetic::div_mod::lemma_mod_twice(a + b % m, m);
    vstd::arithmetic::div_mod::lemma_add_mod_noop(a, b + c, m);
    vstd::arithmetic::div_mod::lemma_add_mod_noop(b, c, m);
    vstd::arithmetic::div_mod::lemma_mod_twice(b, m);
    vstd::arithmetic::div_mod::lemma_add_mod_noop(a + b, c, m);
    vstd::arithmetic::div_mod::lemma_add_mod_noop(a, b, m);
    vstd::arithmetic::div_mod::lemma_mod_twice(a + b, m);
}

/// Appends the expansion of one entry to `out`.
#[verifier::rlimit(60)]
fn push_entry_regs(out: &mut Vec<SvdRegister>, e: &SvdRegisterEntry, shift: u32, suffix: &str)
    requires
        entry_ok(*e),
    ensures
        regs_view(final(out)@) == regs_view(old(out)@) + entry_regs(*e, shift as int, suffix@),
{
    let ghost pre = out@;
    match e {
        SvdRegisterEntry::Single(r) => {
            let mut name = r.name.clone();
            name.append(suffix);
            out.push(SvdRegister { name, address_offset: r.address_offset.wrapping_add(shift) });
            proof {
                lemma_wrap_add(r.address_offset, shift);
                assert(regs_view(out@) =~= regs_view(pre) + entry_regs(
                    *e,
                    shift as int,
                    suffix@,
                ));
            }
        },
        SvdRegisterEntry::Array { names, first_offset, dim_increment } => {
            let n = names.len();
            for k in 0..n
                invariant
                    n == names.len(),
                    n < 0x1_0000_0000,
                    regs_view(out@) =~= regs_view(pre) + entry_regs(
                        *e,
                        shift as int,
                        suffix@,
                    ).take(k as int),
                    e matches SvdRegisterEntry::Array {
                        names: enames,
                        first_offset: efo,
                        dim_increment: edi,
                    } && enames == *names && efo == *first_offset && edi == *dim_increment,
            {
                let mut name = names[k].clone();
                name.append(suffix);
                let off = first_offset.wrapping_add((k as u32).wrapping_mul(*dim_increment))
                    .wrapping_add(shift);
                let ghost out_pre = out@;
                out.push(SvdRegister { name, address_offset: off });
                proof {
                    let full = entry_regs(*e, shift as int, suffix@);
                    let fo = *first_offset;
                    let di = *dim_increment;
                    let wm = vstd::wrapping::u32_specs::wrapping_mul(k as u32, di);
                    assert(wm == (k * di) % 0x1_0000_0000);
                    lemma_wrap_add(fo, wm);
                    lemma_wrap_add(vstd::wrapping::u32_specs::wrapping_add(fo, wm), shift);
                    lemma_mod_add_chain(fo as int, k * di, shift as int);
                    assert((fo + k * di + shift) % 0x1_0000_0000 == off as int);
                    assert(name@ == names@[k as int]@ + suffix@);
                    assert(full[k as int].0 == names@[k as int]@ + suffix@);
                    assert(full[k as int].1 == ((fo + k * di + shift) % 0x1_0000_0000) as u32);
                    assert(full[k as int].1 == off);
                    assert(full[k as int] == (names@[k as int]@ + suffix@, off));
                    let target = regs_view(pre) + full.take(k + 1);
                    assert(full.len() == names@.len());
                    assert(regs_view(out_pre).len() == out_pre.len());
                    assert(regs_view(out_pre).len() == regs_view(pre).len() + k);
                    assert(out_pre.len() == pre.len() + k);
                    assert(regs_view(out@).len() == out_pre.len() + 1);
                    assert(regs_view(out@).len() == target.len());
                    assert forall|t: int|
                        0 <= t < regs_view(out@).len() implies regs_view(out@)[t] == target[t] by {
                        assert(regs_view(out@)[t] == (out@[t].name@, out@[t].address_offset));
                        if t < out_pre.len() {
                            assert(out@[t] == out_pre[t]);
                            assert(regs_view(out_pre)[t] == (out_pre[t].name@, out_pre[t].address_offset));
                            assert(regs_view(out_pre)[t] == (regs_view(pre) + full.take(
                                k as int,
                            ))[t]);
                            if t >= pre.len() {
                                assert(full.take(k as int)[t - pre.len()] == full[t - pre.len()]);
                                assert(full.take(k + 1)[t - pre.len()] == full[t - pre.len()]);
                            }
                        } else {
                            assert(out@[t] == SvdRegister { name, address_offset: off });
                            assert(target[t] == full.take(k + 1)[k as int]);
                        }
                    }
                    assert(regs_view(out@) =~= target);
                }
            }
            proof {
                assert(entry_regs(*e, shift as int, suffix@).take(n as int) =~= entry_regs(
                    *e,
                    shift as int,
                    suffix@,
                ));
            }
        },
    }
}

/// Appends the expansion of a run of entries to `out`.
fn push_entries_regs(
    out: &mut Vec<SvdRegister>,
    es: &Vec<SvdRegisterEntry>,
    shift: u32,
    suffix: &str,
)
    requires
        entries_ok(es@),
    ensures
        regs_view(final(out)@) == regs_view(old(out)@) + entries_regs(
            es@,
            shift as int,
            suffix@,
            0,
        ),
{
    let ghost pre = out@;
    let n = es.len();
    for j in 0..n
        invariant
            n == es.len(),
            entries_ok(es@),
            regs_view(out@) + entries_regs(es@, shift as int, suffix@, j as int) =~= regs_view(pre)
                + entries_regs(es@, shift as int, suffix@, 0),
    {
        push_entry_regs(out, &es[j], shift, suffix);
        proof {
            assert(regs_view(out@) + entries_regs(es@, shift as int, suffix@, j + 1) =~= regs_view(
                pre,
            ) + entries_regs(es@, shift as int, suffix@, 0));
        }
    }
    proof {
        assert(regs_view(out@) + Seq::<(Seq<char>, u32)>::empty() =~= regs_view(out@));
        assert(regs_view(out@) =~= regs_view(pre) + entries_regs(es@, shift as int, suffix@, 0));
    }
}

/// Expands a peripheral's description into its flat register list: plain
/// registers and register arrays first, then every cluster, cluster arrays
/// enumerated per element with the element suffix appended to each register
/// name and the element offset added to each register offset.
pub fn extract_svd_registers(p: &SvdPeripheral) -> (regs: Vec<SvdRegister>)
    requires
        peripheral_ok(*p),
    ensures
        regs_view(regs@) == peripheral_regs(*p),
{
    let mut out: Vec<SvdRegister> = Vec::new();
    push_entries_regs(&mut out, &p.registers, 0, "");
    proof {
        assert(entries_regs(p.registers@, 0, ""@, 0) =~= entries_regs(
            p.registers@,
            0,
            Seq::empty(),
            0,
        )) by {
            lemma_entries_regs_empty_suffix(p.registers@, 0, 0);
        }
    }
    let n = p.clusters.len();
    for j in 0..n
        invariant
            n == p.clusters.len(),
            peripheral_ok(*p),
            regs_view(out@) =~= entries_regs(p.registers@, 0, Seq::empty(), 0) + clusters_regs(
                p.clusters@,
                0,
            ).take(clusters_regs_len_upto(p.clusters@, j as int)),
            clusters_regs_len_upto(p.clusters@, j as int) <= clusters_regs(p.clusters@, 0).len(),
    {
        let ghost before = regs_view(out@);
        match &p.clusters[j] {
            SvdClusterEntry::Single { registers } => {
                push_entries_regs(&mut out, registers, 0, "");
                proof {
                    lemma_entries_regs_empty_suffix(registers@, 0, 0);
                }
            },
            SvdClusterEntry::Array { registers, suffixes, first_offset, dim_increment } => {
                proof {
                    assert(match p.clusters@[j as int] {
                        SvdClusterEntry::Single { registers } => entries_ok(registers@),
                        SvdClusterEntry::Array { registers, suffixes, .. } => entries_ok(
                            registers@,
                        ) && suffixes.len() < 0x1_0000_0000,
                    });
                }
                let m = suffixes.len();
                for k in 0..m
                    invariant
                        m == suffixes.len(),
                        m < 0x1_0000_0000,
                        entries_ok(registers@),
                        p.clusters@[j as int] matches SvdClusterEntry::Array {
                            registers: cr,
                            suffixes: cs,
                            first_offset: cf,
                            dim_increment: cd,
                        } && cr == *registers && cs == *suffixes && cf == *first_offset && cd
                            == *dim_increment,
                        regs_view(out@) + cluster_array_regs(
                            registers@,
                            suffixes@,
                            *first_offset,
                            *dim_increment,
                            k as int,
                        ) =~= before + cluster_array_regs(
                            registers@,
                            suffixes@,
                            *first_offset,
                            *dim_increment,
                            0,
                        ),
                {
                    let shift = first_offset.wrapping_add(
                        (k as u32).wrapping_mul(*dim_increment),
                    );
                    proof {
                        let fo = *first_offset;
                        let di = *dim_increment;
                        let wm = vstd::wrapping::u32_specs::wrapping_mul(k as u32, di);
                        assert(wm == (k * di) % 0x1_0000_0000);
                        lemma_wrap_add(fo, wm);
                        lemma_mod_add_chain(fo as int, k * di, 0);
                        assert(shift as int == (fo + k * di) % 0x1_0000_0000);
                    }
                    push_entries_regs(&mut out, registers, shift, suffixes[k].as_str());
                    proof {
                        assert(regs_view(out@) + cluster_array_regs(
                            registers@,
                            suffixes@,
                            *first_offset,
                            *dim_increment,
                            k + 1,
                        ) =~= before + cluster_array_regs(
                            registers@,
                            suffixes@,
                            *first_offset,
                            *dim_increment,
                            0,
                        ));
                    }
                }
                proof {
                    assert(regs_view(out@) + Seq::<(Seq<char>, u32)>::empty() =~= regs_view(
                        out@,
                    ));
                }
            },
        }
        proof {
            assert(regs_view(out@) =~= before + cluster_regs(p.clusters@[j as int]));
            lemma_clusters_regs_take(p.clusters@, j as int);
            assert(regs_view(out@) =~= entries_regs(p.registers@, 0, Seq::empty(), 0)
                + clusters_regs(p.clusters@, 0).take(
                clusters_regs_len_upto(p.clusters@, j + 1),
            ));
        }
    }
    proof {
        lemma_clusters_regs_take_all(p.clusters@);
        assert(regs_view(out@) =~= peripheral_regs(*p));
    }
    out
}

/// The number of flat pairs the first `j` clusters contribute.
pub open spec fn clusters_regs_len_upto(cs: Seq<SvdClusterEntry>, j: int) -> int
    decreases j,
{
    if j <= 0 {
        0
    } else {
        clusters_regs_len_upto(cs, j - 1) + cluster_regs(cs[j - 1]).len()
    }
}

proof fn lemma_entries_regs_empty_suffix(es: Seq<SvdRegisterEntry>, shift: int, j: int)
    ensures
        entries_regs(es, shift, ""@, j) =~~= entries_regs(es, shift, Seq::empty(), j),
    decreases es.len() - j,
{
    reveal_strlit("");
    if 0 <= j < es.len() {
        lemma_entries_regs_empty_suffix(es, shift, j + 1);
        assert(entry_regs(es[j], shift, ""@) =~~= entry_regs(es[j], shift, Seq::empty()));
    }
}

/// The flat list of the first `j + 1` clusters extends that of the first
/// `j` by cluster `j`'s own.
proof fn lemma_clusters_regs_take(cs: Seq<SvdClusterEntry>, j: int)
    requires
        0 <= j < cs.len(),
    ensures
        clusters_regs(cs, 0).take(clusters_regs_len_upto(cs, j + 1)) =~= clusters_regs(
            cs,
            0,
        ).take(clusters_regs_len_upto(cs, j)) + cluster_regs(cs[j]),
        clusters_regs_len_upto(cs, j + 1) <= clusters_regs(cs, 0).len(),
        clusters_regs_len_upto(cs, j) >= 0,
{
    lemma_clusters_regs_decompose(cs, j, 0);
}

proof fn lemma_clusters_regs_decompose(cs: Seq<SvdClusterEntry>, j: int, i: int)
    requires
        0 <= i <= j < cs.len(),
    ensures
        clusters_regs_len_upto(cs, j) - clusters_regs_len_upto(cs, i) >= 0,
        clusters_regs(cs, i).take(
            clusters_regs_len_upto(cs, j + 1) - clusters_regs_len_upto(cs, i),
        ) =~= clusters_regs(cs, i).take(
            clusters_regs_len_upto(cs, j) - clusters_regs_len_upto(cs, i),
        ) + cluster_regs(cs[j]),
        clusters_regs_len_upto(cs, j + 1) - clusters_regs_len_upto(cs, i) <= clusters_regs(
            cs,
            i,
        ).len(),
    decreases j - i,
{
    if i == j {
        lemma_clusters_upto_nonneg(cs, j);
        lemma_clusters_len(cs, j + 1);
        assert(clusters_regs(cs, i).take(cluster_regs(cs[j]).len() as int) =~= cluster_regs(
            cs[j],
        ) + clusters_regs(cs, i + 1).take(0));
        assert(clusters_regs(cs, i + 1).take(0) =~= Seq::<(Seq<char>, u32)>::empty());
        assert(cluster_regs(cs[j]) + Seq::<(Seq<char>, u32)>::empty() =~= cluster_regs(cs[j]));
        assert(clusters_regs(cs, i).take(0) =~= Seq::<(Seq<char>, u32)>::empty());
    } else {
        lemma_clusters_regs_decompose(cs, j, i + 1);
        lemma_clusters_upto_step(cs, i, j + 1);
    }
}

/// `len_upto` grows along with the suffix decomposition.
proof fn lemma_clusters_upto_step(cs: Seq<SvdClusterEntry>, i: int, j: int)
    requires
        0 <= i < j <= cs.len(),
    ensures
        clusters_regs(cs, i).take(clusters_regs_len_upto(cs, j) - clusters_regs_len_upto(cs, i))
            =~= cluster_regs(cs[i]) + clusters_regs(cs, i + 1).take(
            clusters_regs_len_upto(cs, j) - clusters_regs_len_upto(cs, i + 1),
        ),
        clusters_regs_len_upto(cs, j) - clusters_regs_len_upto(cs, i) >= cluster_regs(
            cs[i],
        ).len(),
        clusters_regs_len_upto(cs, j) - clusters_regs_len_upto(cs, i + 1) >= 0,
        clusters_regs_len_upto(cs, j) - clusters_regs_len_upto(cs, i + 1) <= clusters_regs(
            cs,
            i + 1,
        ).len(),
    decreases j - i,
{
    lemma_clusters_upto_diff(cs, i + 1, j);
    lemma_clusters_len(cs, j);
    lemma_clusters_suffix_len(cs, i + 1, j);
}

/// `len_upto` is monotone.
proof fn lemma_clusters_upto_diff(cs: Seq<SvdClusterEntry>, i: int, j: int)
    requires
        0 <= i <= j,
    ensures
        clusters_regs_len_upto(cs, j) >= clusters_regs_len_upto(cs, i),
    decreases j - i,
{
    if i < j {
        lemma_clusters_upto_diff(cs, i, j - 1);
    }
}

proof fn lemma_clusters_upto_nonneg(cs: Seq<SvdClusterEntry>, j: int)
    ensures
        clusters_regs_len_upto(cs, j) >= 0,
    decreases j,
{
    if j > 0 {
        lemma_clusters_upto_nonneg(cs, j - 1);
    }
}

/// The total length of the flat list of clusters `i..` is the `len_upto`
/// difference.
proof fn lemma_clusters_suffix_len(cs: Seq<SvdClusterEntry>, i: int, j: int)
    requires
        0 <= i <= j <= cs.len(),
    ensures
        clusters_regs(cs, i).len() >= clusters_regs_len_upto(cs, j) - clusters_regs_len_upto(
            cs,
            i,
        ),
    decreases j - i,
{
    if i < j {
        lemma_clusters_suffix_len(cs, i + 1, j);
    }
}

/// The length of the first `j` clusters' flat list never exceeds the whole.
proof fn lemma_clusters_len(cs: Seq<SvdClusterEntry>, j: int)
    requires
        0 <= j <= cs.len(),
    ensures
        clusters_regs_len_upto(cs, j) <= clusters_regs(cs, 0).len(),
        clusters_regs_len_upto(cs, j) >= 0,
{
    lemma_clusters_upto_nonneg(cs, j);
    lemma_clusters_suffix_len(cs, 0, j);
}

proof fn lemma_clusters_regs_take_all(cs: Seq<SvdClusterEntry>)
    ensures
        clusters_regs(cs, 0).take(clusters_regs_len_upto(cs, cs.len() as int)) =~= clusters_regs(
            cs,
            0,
        ),
{
    lemma_clusters_total_len(cs, 0);
}

/// The `len_upto` of all clusters is the whole flat length.
proof fn lemma_clusters_total_len(cs: Seq<SvdClusterEntry>, i: int)
    requires
        0 <= i <= cs.len(),
    ensures
        clusters_regs(cs, i).len() == clusters_regs_len_upto(cs, cs.len() as int)
            - clusters_regs_len_upto(cs, i),
    decreases cs.len() - i,
{
    if i < cs.len() {
        lemma_clusters_total_len(cs, i + 1);
    }
}

} // verus!
