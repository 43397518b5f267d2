//! The filters of restoration units.
use vstd::prelude::*;

use crate::frame::{ns_coeffs, NsWienerBank};
use crate::headers::{NSWienerPlane, RestorationType};
use crate::intops::{b2i, bit_of, bit_set, p2, POW2};
use crate::msac::{Cdf, MsacContext, Request, Sym};
use crate::mvread::{decode_4way, four_way};
use crate::restunit::Av2RestorationUnit;

verus! {

/// The kind of filter of a unit, in a frame that uses `frame_type`.
pub open spec fn rst_type(s: Sym, frame_type: RestorationType) -> (RestorationType, Sym) {
    if frame_type == RestorationType::Switchable {
        let (off, s) = s.flag(Cdf::RstSwitchable(0));
        if off == 1 {
            (RestorationType::Off, s)
        } else {
            let (pc, s) = s.flag(Cdf::RstSwitchable(1));
            (
                if pc == 1 {
                    RestorationType::PcWiener
                } else {
                    RestorationType::NsWiener
                },
                s,
            )
        }
    } else {
        let (on, s) = s.flag(
            if frame_type == RestorationType::NsWiener {
                Cdf::RstNsWiener
            } else {
                Cdf::RstPcWiener
            },
        );
        (
            if on == 1 {
                frame_type
            } else {
                RestorationType::Off
            },
            s,
        )
    }
}

fn read_rst_type(msac: &mut MsacContext, frame_type: RestorationType) -> (r: RestorationType)
    ensures
        (r, final(msac)@) == rst_type(old(msac)@, frame_type),
{
    if frame_type == RestorationType::Switchable {
        if msac.decode_bool_adapt(Cdf::RstSwitchable(0)) == 1 {
            RestorationType::Off
        } else if msac.decode_bool_adapt(Cdf::RstSwitchable(1)) == 1 {
            RestorationType::PcWiener
        } else {
            RestorationType::NsWiener
        }
    } else {
        let cdf: Cdf = if frame_type == RestorationType::NsWiener {
            Cdf::RstNsWiener
        } else {
            Cdf::RstPcWiener
        };
        if msac.decode_bool_adapt(cdf) == 1 {
            frame_type
        } else {
            RestorationType::Off
        }
    }
}

/// What a bank keeps of one class: how many filters, the newest of them, and
/// the coefficients.
#[verifier::ext_equal]
pub struct BankClass {
    pub size: int,
    pub idx: int,
    pub filters: Seq<Seq<i8>>,
}

impl NsWienerBank {
    /// What the bank keeps of class `n`.
    pub open spec fn class(self, n: int) -> BankClass {
        BankClass {
            size: self.bank_size[n] as int,
            idx: self.bank_idx[n] as int,
            filters: Seq::new(4, |k: int| self.filter[k][n]@),
        }
    }

    pub open spec fn classes(self) -> Seq<BankClass> {
        Seq::new(16, |n: int| self.class(n))
    }
}

impl Av2RestorationUnit {
    pub open spec fn filters(self) -> Seq<Seq<i8>> {
        Seq::new(16, |n: int| self.ns_filter[n]@)
    }
}

/// The tables for the filters of a plane: the coefficients of each subset as
/// bits, and the range of each coefficient.
pub struct NsTables {
    pub masks: Vec<u32>,
    pub ranges: Vec<[i8; 2]>,
}

impl NsTables {
    /// The later coefficients of chroma come in pairs: those of a pair have
    /// the same range, and no subset holds only the second one.
    pub open spec fn paired(self) -> bool {
        &&& forall|m: int|
            6 <= m < 17 && m % 2 == 0 ==> (#[trigger] self.ranges@[m])@ == self.ranges@[m + 1]@
        &&& forall|k: int, m: int|
            0 <= k < self.masks@.len() && 6 <= m < 17 && m % 2 == 0 && !(#[trigger] bit_of(
                self.masks@[k] as int,
                m,
            )) ==> !bit_of(self.masks@[k] as int, m + 1)
    }

    /// Every range contains zero and fits in a coefficient.
    pub open spec fn valid(self, uv: bool) -> bool {
        let n = if uv { 18int } else { 16 };
        &&& self.masks@.len() >= (if uv { 3int } else { 4 })
        &&& self.ranges@.len() >= n
        &&& forall|m: int|
            0 <= m < n ==> {
                let r = #[trigger] self.ranges@[m];
                &&& 3 <= r[0] <= 7
                &&& -128 <= r[1] <= 0
                &&& 0 < r[1] + p2(r[0] as int) <= 128
            }
        &&& uv ==> self.paired()
    }
}

/// The coefficients of a filter lie in their ranges.
pub open spec fn filter_in_range(f: Seq<i8>, t: NsTables, n: int) -> bool {
    &&& f.len() == 20
    &&& forall|m: int|
        0 <= m < n ==> t.ranges@[m][1] <= #[trigger] f[m] < t.ranges@[m][1] + p2(
            t.ranges@[m][0] as int,
        )
}

/// Every filter of the class lies in range.
pub open spec fn class_in_range(c: BankClass, t: NsTables, n: int) -> bool {
    &&& 0 <= c.size <= 4
    &&& 0 <= c.idx < 4
    &&& c.filters.len() == 4
    &&& forall|k: int| 0 <= k < 4 ==> filter_in_range(#[trigger] c.filters[k], t, n)
}

pub open spec fn bank_in_range(c: Seq<BankClass>, t: NsTables, n: int) -> bool {
    &&& c.len() == 16
    &&& forall|i: int| 0 <= i < 16 ==> class_in_range(#[trigger] c[i], t, n)
}

/// A number of at most `limit`, coded as that many zeros and a one.
pub open spec fn zeros_read(s: Sym, r: int, limit: int) -> (int, Sym)
    decreases limit - r,
{
    if r >= limit {
        (r, s)
    } else {
        let (b, s) = s.bit();
        if b == 1 {
            (r, s)
        } else {
            zeros_read(s, r + 1, limit)
        }
    }
}

/// Which filter of the bank a class refers to, and whether it is that filter.
pub struct ClassRef {
    pub exact: bool,
    pub idx: int,
}

/// The references of all classes from those in `acc` on.
pub open spec fn refs_read(
    s: Sym,
    classes: Seq<BankClass>,
    acc: Seq<ClassRef>,
    n_classes: int,
) -> (Seq<ClassRef>, Sym)
    decreases n_classes - acc.len(),
{
    if acc.len() >= n_classes {
        (acc, s)
    } else {
        let c = classes[acc.len() as int];
        let (e, s) = s.bit();
        let (r, s) = zeros_read(s, 0, c.size - 1);
        refs_read(s, classes, acc.push(ClassRef { exact: e == 1, idx: (c.idx - r) % 4 }), n_classes)
    }
}

/// The subset that a filter is coded with.
pub open spec fn subset_read(s: Sym, k: int, limit: int, uv: int) -> (int, Sym)
    decreases limit - k,
{
    if k >= limit {
        (k, s)
    } else {
        let (b, s) = s.flag(Cdf::WienerNsLen(uv as usize));
        if b == 0 {
            (k, s)
        } else {
            subset_read(s, k + 1, limit, uv)
        }
    }
}

/// Coefficient `i` of a filter, coded relative to that of another filter.
pub open spec fn coef_read(s: Sym, i: int, reff: Seq<i8>, t: NsTables) -> (i8, Sym) {
    let lo = t.ranges@[i][1] as int;
    let (v, s) = four_way(s, reff[i] - lo, Cdf::WienerNsCf, t.ranges@[i][0] as int);
    ((v + lo) as i8, s)
}

/// The coefficients in `mask` from the `i`-th on. Where `pairs` is set, the
/// later coefficients come in equal pairs.
pub open spec fn coefs_read(
    s: Sym,
    row: Seq<i8>,
    i: int,
    mask: int,
    pairs: bool,
    reff: Seq<i8>,
    t: NsTables,
    n: int,
) -> (Seq<i8>, Sym)
    decreases n + 1 - i,
{
    if i >= n {
        (row, s)
    } else if !bit_of(mask, i) {
        coefs_read(s, row, i + 1, mask, pairs, reff, t, n)
    } else {
        let (c, s) = coef_read(s, i, reff, t);
        if pairs && i >= 6 {
            coefs_read(s, row.update(i, c).update(i + 1, c), i + 2, mask, pairs, reff, t, n)
        } else {
            coefs_read(s, row.update(i, c), i + 1, mask, pairs, reff, t, n)
        }
    }
}

/// `row` with the first `n` coefficients of `from`.
pub open spec fn with_coefs(row: Seq<i8>, from: Seq<i8>, n: int) -> Seq<i8> {
    Seq::new(row.len(), |m: int| if m < n { from[m] } else { row[m] })
}

/// `row` with its first `n` coefficients zero.
pub open spec fn cleared(row: Seq<i8>, n: int) -> Seq<i8> {
    Seq::new(row.len(), |m: int| if m < n { 0 } else { row[m] })
}

/// A filter that is coded anew, relative to `reff`.
pub open spec fn filter_read(
    s: Sym,
    row: Seq<i8>,
    reff: Seq<i8>,
    t: NsTables,
    uv: bool,
) -> (Seq<i8>, Sym) {
    let n = ns_coeffs(b2i(uv));
    let (k, s) = subset_read(s, 0, 3 - b2i(uv), b2i(uv));
    let (p, s) = if uv && k != 0 {
        s.flag(Cdf::WienerNsSym)
    } else {
        (0, s)
    };
    coefs_read(s, cleared(row, n), 0, t.masks@[k] as int, p == 1, reff, t, n)
}

/// What a class becomes by a filter that is coded anew.
pub open spec fn class_with(c: BankClass, f: Seq<i8>, n: int) -> BankClass {
    let idx = (c.idx + 1) % 4;
    BankClass {
        size: if c.size < 4 { c.size + 1 } else { c.size },
        idx,
        filters: c.filters.update(idx, with_coefs(c.filters[idx], f, n)),
    }
}

/// One class: its filter, what the bank keeps of it, and the state after it.
pub open spec fn class_read(
    s: Sym,
    row: Seq<i8>,
    c: BankClass,
    r: ClassRef,
    t: NsTables,
    uv: bool,
) -> (Seq<i8>, BankClass, Sym) {
    let n = ns_coeffs(b2i(uv));
    let reff = c.filters[r.idx];
    if r.exact {
        (
            with_coefs(row, reff, n),
            BankClass { size: if c.size == 0 { 1 } else { c.size }, idx: c.idx, filters: c.filters },
            s,
        )
    } else {
        let (f, s) = filter_read(s, row, reff, t, uv);
        (f, class_with(c, f, n), s)
    }
}

/// All classes from the `n`-th on.
pub open spec fn classes_read(
    s: Sym,
    rows: Seq<Seq<i8>>,
    classes: Seq<BankClass>,
    refs: Seq<ClassRef>,
    n: int,
    t: NsTables,
    uv: bool,
) -> (Seq<Seq<i8>>, Seq<BankClass>, Sym)
    decreases refs.len() - n,
{
    if n >= refs.len() {
        (rows, classes, s)
    } else {
        let (row, c, s) = class_read(s, rows[n], classes[n], refs[n], t, uv);
        classes_read(s, rows.update(n, row), classes.update(n, c), refs, n + 1, t, uv)
    }
}

/// A restoration unit: its kind, its filters, the bank, and the state after
/// it.
pub open spec fn restoration_read(
    s: Sym,
    rows: Seq<Seq<i8>>,
    classes: Seq<BankClass>,
    frame_type: RestorationType,
    ns: NSWienerPlane,
    t: NsTables,
    uv: bool,
) -> (RestorationType, Seq<Seq<i8>>, Seq<BankClass>, Sym) {
    let (kind, s) = rst_type(s, frame_type);
    if kind == RestorationType::NsWiener && ns.frame_filters_on == 0 {
        let (refs, s) = refs_read(s, classes, Seq::empty(), ns.num_classes as int);
        let (rows, classes, s) = classes_read(s, rows, classes, refs, 0, t, uv);
        (kind, rows, classes, s)
    } else {
        (kind, rows, classes, s)
    }
}

fn read_zeros(msac: &mut MsacContext, limit: i32) -> (r: i32)
    requires
        limit <= 3,
    ensures
        (r as int, final(msac)@) == zeros_read(old(msac)@, 0, limit as int),
        0 <= r <= 3,
{
    let ghost s0 = msac@;
    let mut r: i32 = 0;
    while r < limit
        invariant
            0 <= r <= 3,
            limit <= 3,
            s0 == old(msac)@,
            zeros_read(msac@, r as int, limit as int) == zeros_read(s0, 0, limit as int),
        decreases limit - r,
    {
        if msac.decode_bool_bypass() == 1 {
            return r;
        }
        r = r + 1;
    }
    r
}

fn read_subset(msac: &mut MsacContext, limit: usize, uv: usize) -> (r: usize)
    requires
        limit <= 3,
    ensures
        (r as int, final(msac)@) == subset_read(old(msac)@, 0, limit as int, uv as int),
        r <= limit,
{
    let ghost s0 = msac@;
    let mut k: usize = 0;
    while k < limit
        invariant
            k <= limit <= 3,
            s0 == old(msac)@,
            subset_read(msac@, k as int, limit as int, uv as int) == subset_read(
                s0,
                0,
                limit as int,
                uv as int,
            ),
        decreases limit - k,
    {
        if msac.decode_bool_adapt(Cdf::WienerNsLen(uv)) == 0 {
            return k;
        }
        k = k + 1;
    }
    k
}

fn copy_coefs(row: &mut [i8; 20], from: &[i8; 20], n: usize)
    requires
        n <= 20,
    ensures
        final(row)@ == with_coefs(old(row)@, from@, n as int),
{
    let ghost r0 = row@;
    let mut m: usize = 0;
    while m < n
        invariant
            m <= n <= 20,
            r0.len() == 20,
            forall|i: int| 0 <= i < 20 ==> #[trigger] row@[i] == (if i < m { from@[i] } else { r0[i] }),
        decreases n - m,
    {
        row[m] = from[m];
        m = m + 1;
    }
}

fn clear_coefs(row: &mut [i8; 20], n: usize)
    requires
        n <= 20,
    ensures
        final(row)@ == cleared(old(row)@, n as int),
{
    let ghost r0 = row@;
    let mut m: usize = 0;
    while m < n
        invariant
            m <= n <= 20,
            r0.len() == 20,
            forall|i: int| 0 <= i < 20 ==> #[trigger] row@[i] == (if i < m { 0 } else { r0[i] }),
        decreases n - m,
    {
        row[m] = 0;
        m = m + 1;
    }
}

/// Where the first coefficient of a later pair is not coded, the second is
/// not either.
pub open spec fn pairs_start_even(mask: int) -> bool {
    forall|m: int| 6 <= m < 17 && m % 2 == 0 && !(#[trigger] bit_of(mask, m)) ==> !bit_of(mask, m + 1)
}

fn read_coefs(
    msac: &mut MsacContext,
    row: &mut [i8; 20],
    mask: u32,
    pairs: bool,
    reff: &[i8; 20],
    t: &NsTables,
    uv: bool,
)
    requires
        t.valid(uv),
        filter_in_range(reff@, *t, ns_coeffs(b2i(uv))),
        filter_in_range(old(row)@, *t, ns_coeffs(b2i(uv))),
        pairs ==> uv && pairs_start_even(mask as int),
    ensures
        (final(row)@, final(msac)@) == coefs_read(
            old(msac)@,
            old(row)@,
            0,
            mask as int,
            pairs,
            reff@,
            *t,
            ns_coeffs(b2i(uv)),
        ),
        filter_in_range(final(row)@, *t, ns_coeffs(b2i(uv))),
{
    let n: usize = if uv { 18 } else { 16 };
    let ghost s0 = msac@;
    let ghost r0 = row@;
    let mut i: usize = 0;
    while i < n
        invariant
            n == ns_coeffs(b2i(uv)),
            n <= 18,
            t.valid(uv),
            pairs ==> uv && pairs_start_even(mask as int),
            i <= n,
            pairs && i > 6 && i % 2 == 1 ==> !bit_of(mask as int, i as int),
            filter_in_range(reff@, *t, n as int),
            filter_in_range(row@, *t, n as int),
            coefs_read(msac@, row@, i as int, mask as int, pairs, reff@, *t, n as int)
                == coefs_read(s0, r0, 0, mask as int, pairs, reff@, *t, n as int),
        decreases n + 1 - i,
    {
        let ghost row1 = row@;
        if !bit_set(mask, i as u32) {
            i = i + 1;
        } else {
            let range: [i8; 2] = t.ranges[i];
            let lo: i32 = range[1] as i32;
            assert(t.ranges@[i as int][1] == lo);
            assert(forall|k: int| 0 <= k <= 7 ==> 1 <= #[trigger] POW2[k] <= 128);
            let v: i32 = decode_4way(msac, reff[i] as i32 - lo, Cdf::WienerNsCf, range[0] as i32);
            let c: i8 = (v + lo) as i8;
            row[i] = c;
            assert(row@ == row1.update(i as int, c));
            if pairs && i >= 6 {
                row[i + 1] = c;
                assert(row@ == row1.update(i as int, c).update(i + 1, c));
                i = i + 2;
            } else {
                i = i + 1;
            }
        }
    }
}

fn read_filter(
    msac: &mut MsacContext,
    row: &mut [i8; 20],
    reff: &[i8; 20],
    t: &NsTables,
    uv: bool,
)
    requires
        t.valid(uv),
        filter_in_range(reff@, *t, ns_coeffs(b2i(uv))),
    ensures
        (final(row)@, final(msac)@) == filter_read(old(msac)@, old(row)@, reff@, *t, uv),
        filter_in_range(final(row)@, *t, ns_coeffs(b2i(uv))),
{
    let n: usize = if uv { 18 } else { 16 };
    let is_uv: usize = if uv { 1 } else { 0 };
    clear_coefs(row, n);
    let k: usize = read_subset(msac, 3 - is_uv, is_uv);
    let pairs: bool = uv && k != 0 && msac.decode_bool_adapt(Cdf::WienerNsSym) == 1;
    let mask: u32 = t.masks[k];
    read_coefs(msac, row, mask, pairs, reff, t, uv);
}

fn read_refs(msac: &mut MsacContext, bank: &NsWienerBank, n_classes: usize) -> (r: (Vec<bool>, Vec<u8>))
    requires
        n_classes <= 16,
        forall|i: int| 0 <= i < 16 ==> bank.bank_size[i] <= 4 && bank.bank_idx[i] < 4,
    ensures
        r.0@.len() == n_classes,
        r.1@.len() == n_classes,
        (class_refs(r.0@, r.1@), final(msac)@) == refs_read(
            old(msac)@,
            bank.classes(),
            Seq::empty(),
            n_classes as int,
        ),
        forall|i: int| 0 <= i < n_classes ==> #[trigger] r.1@[i] < 4,
{
    let mut exact: Vec<bool> = Vec::new();
    let mut idx: Vec<u8> = Vec::new();
    let ghost s0 = msac@;
    assert(class_refs(exact@, idx@) == Seq::<ClassRef>::empty());
    let mut n: usize = 0;
    while n < n_classes
        invariant
            n <= n_classes <= 16,
            forall|i: int| 0 <= i < 16 ==> bank.bank_size[i] <= 4 && bank.bank_idx[i] < 4,
            exact@.len() == n,
            idx@.len() == n,
            refs_read(msac@, bank.classes(), class_refs(exact@, idx@), n_classes as int)
                == refs_read(s0, bank.classes(), Seq::empty(), n_classes as int),
            forall|i: int| 0 <= i < n ==> #[trigger] idx@[i] < 4,
        decreases n_classes - n,
    {
        let ghost acc = class_refs(exact@, idx@);
        let e: bool = msac.decode_bool_bypass() == 1;
        let size: u8 = bank.bank_size[n];
        let newest: u8 = bank.bank_idx[n];
        let r: i32 = read_zeros(msac, size as i32 - 1);
        let k: i32 = newest as i32 - r;
        let k: i32 = if k < 0 { k + 4 } else { k };
        exact.push(e);
        idx.push(k as u8);
        assert(class_refs(exact@, idx@) =~= acc.push(ClassRef { exact: e, idx: k as int }));
        n = n + 1;
    }
    (exact, idx)
}

/// The references in two lists.
pub open spec fn class_refs(exact: Seq<bool>, idx: Seq<u8>) -> Seq<ClassRef> {
    Seq::new(exact.len(), |i: int| ClassRef { exact: exact[i], idx: idx[i] as int })
}

fn read_class(
    msac: &mut MsacContext,
    bank: &mut NsWienerBank,
    lr: &mut Av2RestorationUnit,
    n: usize,
    exact: bool,
    idx: u8,
    t: &NsTables,
    uv: bool,
)
    requires
        n < 16,
        idx < 4,
        t.valid(uv),
        bank_in_range(old(bank).classes(), *t, ns_coeffs(b2i(uv))),
    ensures
        ({
            let (row, c, s) = class_read(
                old(msac)@,
                old(lr).filters()[n as int],
                old(bank).classes()[n as int],
                ClassRef { exact, idx: idx as int },
                *t,
                uv,
            );
            &&& final(msac)@ == s
            &&& final(lr).filters() == old(lr).filters().update(n as int, row)
            &&& final(bank).classes() == old(bank).classes().update(n as int, c)
        }),
        final(lr).restoration_type == old(lr).restoration_type,
        bank_in_range(final(bank).classes(), *t, ns_coeffs(b2i(uv))),
{
    let n_coefs: usize = if uv { 18 } else { 16 };
    let ghost (bank0, lr0) = (*bank, *lr);
    let ghost c0 = bank.classes()[n as int];
    assert(class_in_range(c0, *t, n_coefs as int));
    let mut row: [i8; 20] = lr.ns_filter[n];
    let k: usize = idx as usize;
    let reff: [i8; 20] = bank.filter[k][n];
    assert(c0.filters[k as int] == reff@);
    if exact {
        copy_coefs(&mut row, &reff, n_coefs);
        lr.ns_filter[n] = row;
        if bank.bank_size[n] == 0 {
            bank.bank_size[n] = 1;
        }
        assert(lr.filters() =~= lr0.filters().update(n as int, row@));
        let ghost c1 = BankClass {
            size: if c0.size == 0 { 1 } else { c0.size },
            idx: c0.idx,
            filters: c0.filters,
        };
        assert(bank.class(n as int).filters =~= c1.filters);
        assert forall|i: int| 0 <= i < 16 implies #[trigger] bank.classes()[i]
            == bank0.classes().update(n as int, c1)[i] by {
            assert(bank.class(i).filters =~= bank0.class(i).filters);
        }
        assert(bank.classes() =~= bank0.classes().update(n as int, c1));
    } else {
        read_filter(msac, &mut row, &reff, t, uv);
        lr.ns_filter[n] = row;
        let next: usize = if bank.bank_idx[n] < 3 { bank.bank_idx[n] as usize + 1 } else { 0 };
        bank.bank_idx[n] = next as u8;
        let mut kept: [i8; 20] = bank.filter[next][n];
        assert(c0.filters[next as int] == kept@);
        copy_coefs(&mut kept, &row, n_coefs);
        bank.filter[next][n] = kept;
        if bank.bank_size[n] < 4 {
            bank.bank_size[n] = bank.bank_size[n] + 1;
        }
        assert(lr.filters() =~= lr0.filters().update(n as int, row@));
        let ghost c1 = class_with(c0, row@, n_coefs as int);
        assert(bank.class(n as int).filters =~= c1.filters);
        assert forall|i: int| 0 <= i < 16 implies #[trigger] bank.classes()[i]
            == bank0.classes().update(n as int, c1)[i] by {
            if i != n {
                assert(bank.class(i).filters =~= bank0.class(i).filters);
            }
        }
        assert(bank.classes() =~= bank0.classes().update(n as int, c1));
    }
}

/// Reads how a restoration unit of plane `p` is filtered. The filters that a
/// frame codes once for all units are not read here. Filters that are coded
/// anew go into the bank.
pub fn read_restoration_info(
    msac: &mut MsacContext,
    bank: &mut NsWienerBank,
    lr: &mut Av2RestorationUnit,
    p: usize,
    frame_type: RestorationType,
    ns_plane: &NSWienerPlane,
    t: &NsTables,
)
    requires
        t.valid(p != 0),
        ns_plane.num_classes <= 16,
        bank_in_range(old(bank).classes(), *t, ns_coeffs(p as int)),
    ensures
        (
            final(lr).restoration_type,
            final(lr).filters(),
            final(bank).classes(),
            final(msac)@,
        ) == restoration_read(
            old(msac)@,
            old(lr).filters(),
            old(bank).classes(),
            frame_type,
            *ns_plane,
            *t,
            p != 0,
        ),
        bank_in_range(final(bank).classes(), *t, ns_coeffs(p as int)),
{
    let uv: bool = p != 0;
    lr.restoration_type = read_rst_type(msac, frame_type);
    assert(lr.filters() =~= old(lr).filters());
    if lr.restoration_type == RestorationType::NsWiener && ns_plane.frame_filters_on == 0 {
        let n_classes: usize = ns_plane.num_classes as usize;
        assert forall|i: int| 0 <= i < 16 implies bank.bank_size[i] <= 4 && bank.bank_idx[i] < 4 by {
            assert(class_in_range(bank.classes()[i], *t, ns_coeffs(p as int)));
        }
        let (exact, idx) = read_refs(msac, bank, n_classes);
        let ghost refs = class_refs(exact@, idx@);
        let ghost (s0, rows0, classes0) = (msac@, lr.filters(), bank.classes());
        let ghost kind = lr.restoration_type;
        let mut n: usize = 0;
        while n < n_classes
            invariant
                n <= n_classes <= 16,
                uv == (p != 0),
                t.valid(uv),
                exact@.len() == n_classes,
                idx@.len() == n_classes,
                refs == class_refs(exact@, idx@),
                forall|i: int| 0 <= i < n_classes ==> #[trigger] idx@[i] < 4,
                bank_in_range(bank.classes(), *t, ns_coeffs(b2i(uv))),
                lr.restoration_type == kind,
                classes_read(msac@, lr.filters(), bank.classes(), refs, n as int, *t, uv)
                    == classes_read(s0, rows0, classes0, refs, 0, *t, uv),
            decreases n_classes - n,
        {
            read_class(msac, bank, lr, n, exact[n], idx[n], t, uv);
            n = n + 1;
        }
    }
}

/// A bank without filters is in range; reading units keeps it so.
pub proof fn law_empty_bank_is_in_range(bank: NsWienerBank, t: NsTables, uv: bool)
    requires
        bank.empty(),
        t.valid(uv),
    ensures
        bank_in_range(bank.classes(), t, ns_coeffs(b2i(uv))),
{
    assert forall|i: int| 0 <= i < 16 implies class_in_range(
        #[trigger] bank.classes()[i],
        t,
        ns_coeffs(b2i(uv)),
    ) by {
        assert forall|k: int| 0 <= k < 4 implies filter_in_range(
            #[trigger] bank.class(i).filters[k],
            t,
            ns_coeffs(b2i(uv)),
        ) by {
            assert forall|m: int| 0 <= m < ns_coeffs(b2i(uv)) implies t.ranges@[m][1]
                <= #[trigger] bank.class(i).filters[k][m] < t.ranges@[m][1] + p2(
                t.ranges@[m][0] as int,
            ) by {
                assert(bank.filter[k][i][m] == 0);
            }
        }
    }
}

/// The kind of filter of a unit. A frame that mixes them first asks whether the
/// unit is left as it is and then which of the two filters it has; a frame with
/// one kind asks whether it is on.
pub proof fn law_filter_kind_follows_its_flags(s: Sym, frame_type: RestorationType)
    ensures
        ({
            let (r, t) = rst_type(s, frame_type);
            let k = s.asked.len() as int;
            &&& frame_type == RestorationType::Switchable ==> {
                &&& t.asked[k] == Request::Bool(Cdf::RstSwitchable(0))
                &&& t.got(k) == 1 <==> r == RestorationType::Off
                &&& t.got(k) == 0 ==> t.asked[k + 1] == Request::Bool(Cdf::RstSwitchable(1))
                &&& t.got(k) == 0 ==> (t.got(k + 1) == 1 <==> r == RestorationType::PcWiener)
                &&& t.got(k) == 0 ==> (t.got(k + 1) == 0 <==> r == RestorationType::NsWiener)
            }
            &&& frame_type == RestorationType::NsWiener ==> {
                &&& t.asked[k] == Request::Bool(Cdf::RstNsWiener)
                &&& t.got(k) == 1 ==> r == RestorationType::NsWiener
                &&& t.got(k) == 0 ==> r == RestorationType::Off
            }
            &&& frame_type == RestorationType::PcWiener ==> {
                &&& t.asked[k] == Request::Bool(Cdf::RstPcWiener)
                &&& t.got(k) == 1 ==> r == RestorationType::PcWiener
                &&& t.got(k) == 0 ==> r == RestorationType::Off
            }
        }),
{
}

/// A number that is coded by zeros is the number of zeros before the first
/// one, or the limit.
pub proof fn law_zeros_are_counted(s: Sym, r: int, limit: int)
    requires
        r <= limit,
    ensures
        ({
            let (n, t) = zeros_read(s, r, limit);
            let k = s.asked.len() as int;
            &&& r <= n <= limit
            &&& t.replies == s.replies
            &&& t.asked.len() == k + n - r + b2i(n < limit)
            &&& forall|j: int| 0 <= j < k ==> #[trigger] t.asked[j] == s.asked[j]
            &&& forall|j: int| k <= j < k + n - r ==> #[trigger] t.got(j) == 0
            &&& n < limit ==> t.got(k + n - r) == 1
        }),
    decreases limit - r,
{
    if r < limit {
        let (b, s1) = s.bit();
        if b != 1 {
            law_zeros_are_counted(s1, r + 1, limit);
            let t = zeros_read(s1, r + 1, limit).1;
            let k = s.asked.len() as int;
            assert(t.asked[k] == s1.asked[k]);
            assert(t.got(k) == 0);
            assert forall|j: int| 0 <= j < k implies #[trigger] t.asked[j] == s.asked[j] by {
                assert(s1.asked[j] == s.asked[j]);
            }
        }
    }
}

/// The subset of a filter is the number of flags that were set.
pub proof fn law_subsets_are_counted(s: Sym, k0: int, limit: int, uv: int)
    requires
        k0 <= limit,
    ensures
        ({
            let (n, t) = subset_read(s, k0, limit, uv);
            let k = s.asked.len() as int;
            &&& k0 <= n <= limit
            &&& t.replies == s.replies
            &&& t.asked.len() == k + n - k0 + b2i(n < limit)
            &&& forall|j: int| 0 <= j < k ==> #[trigger] t.asked[j] == s.asked[j]
            &&& forall|j: int| k <= j < k + n - k0 ==> #[trigger] t.got(j) == 1
            &&& n < limit ==> t.got(k + n - k0) == 0
        }),
    decreases limit - k0,
{
    if k0 < limit {
        let (b, s1) = s.flag(Cdf::WienerNsLen(uv as usize));
        if b != 0 {
            law_subsets_are_counted(s1, k0 + 1, limit, uv);
            let t = subset_read(s1, k0 + 1, limit, uv).1;
            let k = s.asked.len() as int;
            assert(t.asked[k] == s1.asked[k]);
            assert(t.got(k) == 1);
            assert forall|j: int| 0 <= j < k implies #[trigger] t.asked[j] == s.asked[j] by {
                assert(s1.asked[j] == s.asked[j]);
            }
        }
    }
}

/// A coefficient is coded relative to that of the reference filter: code zero
/// repeats it, and it stays in its range.
pub proof fn law_coefficient_is_near_its_reference(s: Sym, i: int, reff: Seq<i8>, t: NsTables)
    requires
        3 <= t.ranges@[i][0] <= 7,
        -128 <= t.ranges@[i][1] <= 0,
        0 < t.ranges@[i][1] + p2(t.ranges@[i][0] as int) <= 128,
        t.ranges@[i][1] <= reff[i] < t.ranges@[i][1] + p2(t.ranges@[i][0] as int),
    ensures
        ({
            let (c, u) = coef_read(s, i, reff, t);
            let k = s.asked.len() as int;
            &&& t.ranges@[i][1] <= c < t.ranges@[i][1] + p2(t.ranges@[i][0] as int)
            &&& u.asked[k] == Request::Symbol(Cdf::WienerNsCf, 3)
            &&& u.got(k) == 0 && u.got(k + 1) == 0 ==> c == reff[i]
            &&& !(u.got(k) == 0 && u.got(k + 1) == 0) ==> c != reff[i]
        }),
{
    let lo = t.ranges@[i][1] as int;
    let nb = t.ranges@[i][0] as int;
    let r = reff[i] - lo;
    assert(forall|j: int| 0 <= j <= 7 ==> 1 <= #[trigger] POW2[j] <= 128);
    crate::mvread::lemma_pow2_steps();
    let (bin, s1) = s.symbol(Cdf::WienerNsCf, 3);
    let (rem, s2) = s1.bits(crate::mvread::four_way_bits(bin, nb));
    assert(0 <= rem < p2(crate::mvread::four_way_bits(bin, nb)));
    crate::mvread::law_four_way_offset_in_range(bin, rem, nb);
    let v = crate::mvread::four_way_offset(bin, rem, nb);
    crate::mvread::law_four_way_in_range(r, v, nb);
    crate::mvread::law_four_way_in_range(r, 0, nb);
}

/// A class that is coded exactly takes a kept filter as it is. One that is
/// coded anew goes into the next place of its ring of four, and the class keeps
/// one more filter until it has four.
pub proof fn law_new_filters_go_round(
    s: Sym,
    row: Seq<i8>,
    c: BankClass,
    r: ClassRef,
    t: NsTables,
    uv: bool,
    m: int,
)
    requires
        0 <= c.idx < 4,
        0 <= c.size <= 4,
        0 <= r.idx < 4,
        c.filters.len() == 4,
        row.len() == 20,
        0 <= m < (if uv { 18int } else { 16 }),
        forall|k: int| 0 <= k < 4 ==> (#[trigger] c.filters[k]).len() == 20,
    ensures
        ({
            let (f, d, u) = class_read(s, row, c, r, t, uv);
            &&& r.exact ==> f[m] == c.filters[r.idx][m] && d.filters == c.filters && d.idx == c.idx
                && u == s
            &&& r.exact && c.size > 0 ==> d.size == c.size
            &&& !r.exact ==> {
                &&& d.idx == (if c.idx == 3 { 0 } else { c.idx + 1 })
                &&& d.size == (if c.size == 4 { 4 } else { c.size + 1 })
                &&& d.filters[d.idx][m] == f[m]
                &&& forall|k: int|
                    0 <= k < 4 && k != d.idx ==> #[trigger] d.filters[k] == c.filters[k]
            }
        }),
{
}

/// A kept filter is named by how long ago it was coded.
pub proof fn law_references_count_back(s: Sym, classes: Seq<BankClass>)
    requires
        classes.len() >= 1,
        1 <= classes[0].size <= 4,
        0 <= classes[0].idx < 4,
    ensures
        ({
            let (refs, t) = refs_read(s, classes, Seq::empty(), 1);
            let k = s.asked.len() as int;
            let back = zeros_read(s.bit().1, 0, classes[0].size - 1).0;
            &&& refs.len() == 1
            &&& refs[0].exact <==> s.bit().0 == 1
            &&& 0 <= refs[0].idx < 4
            &&& (refs[0].idx + back) % 4 == classes[0].idx
        }),
{
    law_zeros_are_counted(s.bit().1, 0, classes[0].size - 1);
    reveal_with_fuel(refs_read, 2);
}

/// Clearing sets the first coefficients to zero and leaves the others.
pub proof fn law_clearing_leaves_the_rest(row: Seq<i8>, n: int, m: int)
    requires
        0 <= m < row.len(),
    ensures
        cleared(row, n).len() == row.len(),
        m < n ==> cleared(row, n)[m] == 0,
        m >= n ==> cleared(row, n)[m] == row[m],
{
}

/// Copying takes the first coefficients from another filter and leaves the
/// others.
pub proof fn law_copying_leaves_the_rest(row: Seq<i8>, from: Seq<i8>, n: int, m: int)
    requires
        0 <= m < row.len(),
    ensures
        with_coefs(row, from, n).len() == row.len(),
        m < n ==> with_coefs(row, from, n)[m] == from[m],
        m >= n ==> with_coefs(row, from, n)[m] == row[m],
{
}

} // verus!
