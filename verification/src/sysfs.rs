use vstd::prelude::*;

use crate::text::{chars_of, occurs_at, occurs_at_index, string_of};

verus! {

/// The position of the first line feed in `s`, or its length when it has none.
pub open spec fn line_end(s: Seq<char>) -> nat
    decreases s.len(),
{
    if s.len() == 0 {
        0
    } else if s[0] == '\n' {
        0
    } else {
        1 + line_end(s.drop_first())
    }
}

/// `l` without one carriage return at its end.
pub open spec fn strip_cr(l: Seq<char>) -> Seq<char> {
    if l.len() > 0 && l.last() == '\r' {
        l.drop_last()
    } else {
        l
    }
}

/// The lines of `s`, as `str::lines` gives them: split at each line feed,
/// with a carriage return just before a line feed dropped too; a last line
/// ending keeps no empty line after it.
pub open spec fn lines(s: Seq<char>) -> Seq<Seq<char>>
    decreases s.len(),
{
    if s.len() == 0 {
        seq![]
    } else if line_end(s) < s.len() {
        seq![strip_cr(s.take(line_end(s) as int))] + lines(s.skip(line_end(s) + 1int))
    } else {
        seq![s]
    }
}

/// `l` begins with `p`.
pub open spec fn starts_with(l: Seq<char>, p: Seq<char>) -> bool {
    p.len() <= l.len() && l.take(p.len() as int) == p
}

/// What follows `p` on the first of `ls` that begins with `p`.
pub open spec fn after_first_prefixed(ls: Seq<Seq<char>>, p: Seq<char>) -> Option<Seq<char>>
    decreases ls.len(),
{
    if ls.len() == 0 {
        None
    } else if starts_with(ls[0], p) {
        Some(ls[0].skip(p.len() as int))
    } else {
        after_first_prefixed(ls.drop_first(), p)
    }
}

/// The PCI slot that a device's `uevent` file names: what follows
/// `PCI_SLOT_NAME=` on the first line that begins with it.
pub open spec fn pci_slot_in(uevent: Seq<char>) -> Option<Seq<char>> {
    after_first_prefixed(lines(uevent), "PCI_SLOT_NAME="@)
}

proof fn lemma_line_end(s: Seq<char>, k: int)
    requires
        0 <= k <= s.len(),
        forall|i: int| 0 <= i < k ==> s[i] != '\n',
        k == s.len() || s[k] == '\n',
    ensures
        line_end(s) == k,
    decreases k,
{
    if k > 0 {
        lemma_line_end(s.drop_first(), k - 1);
    }
}

/// The position of the first line feed in `cs` at or after `from`, or the
/// length of `cs`.
fn find_line_end(cs: &Vec<char>, from: usize) -> (e: usize)
    requires
        from <= cs.len(),
    ensures
        from <= e <= cs.len(),
        e - from == line_end(cs@.skip(from as int)),
{
    let mut e = from;
    while e < cs.len() && cs[e] != '\n'
        invariant
            from <= e <= cs.len(),
            forall|i: int| from <= i < e ==> cs@[i] != '\n',
        decreases cs.len() - e,
    {
        e = e + 1;
    }
    proof {
        lemma_line_end(cs@.skip(from as int), e - from);
    }
    e
}

/// What follows `PCI_SLOT_NAME=` on the first line of a `uevent` file that
/// begins with it, or `None` when no line does.
pub fn pci_slot_name(uevent: &str) -> (slot: Option<String>)
    ensures
        slot matches Some(s) ==> pci_slot_in(uevent@) == Some(s@),
        slot is None ==> pci_slot_in(uevent@) is None,
{
    let cs = chars_of(uevent);
    let key = chars_of("PCI_SLOT_NAME=");
    let ghost p = "PCI_SLOT_NAME="@;
    let mut from: usize = 0;
    assert(cs@.skip(0) =~= cs@);
    loop
        invariant
            from <= cs.len(),
            key@ == p,
            pci_slot_in(uevent@) == after_first_prefixed(lines(cs@.skip(from as int)), p),
            cs@ == uevent@,
        decreases cs.len() - from,
    {
        let ghost rest = cs@.skip(from as int);
        if from == cs.len() {
            assert(rest.len() == 0);
            return None;
        }
        let e = find_line_end(&cs, from);
        let mut stop = e;
        if e < cs.len() && e > from && cs[e - 1] == '\r' {
            stop = e - 1;
        }
        let ghost line = if e < cs.len() {
            strip_cr(rest.take(e - from))
        } else {
            rest
        };
        assert(line =~= cs@.subrange(from as int, stop as int));
        assert(lines(rest) == seq![line] + if e < cs.len() {
            lines(rest.skip(e - from + 1))
        } else {
            Seq::<Seq<char>>::empty()
        });
        assert((seq![line] + if e < cs.len() {
            lines(rest.skip(e - from + 1))
        } else {
            Seq::<Seq<char>>::empty()
        })[0] == line);
        if key.len() <= stop - from && occurs_at_index(&cs, &key, from) {
            assert(line.take(p.len() as int) =~= cs@.subrange(from as int, from + p.len()));
            let slot = string_of(&cs, from + key.len(), stop);
            assert(line.skip(p.len() as int) =~= slot@);
            return Some(slot);
        }
        assert(!starts_with(line, p)) by {
            if starts_with(line, p) {
                assert(cs@.subrange(from as int, from + p.len()) =~= line.take(p.len() as int));
                assert(occurs_at(cs@, key@, from as int));
            }
        }
        if e == cs.len() {
            assert(lines(rest) =~= seq![line]);
            assert(seq![line].drop_first() =~= Seq::<Seq<char>>::empty());
            assert(after_first_prefixed(Seq::<Seq<char>>::empty(), p) is None);
            assert(seq![line][0] == line);
            return None;
        }
        assert(rest.skip(e - from + 1) =~= cs@.skip(e + 1));
        assert((seq![line] + lines(cs@.skip(e + 1))).drop_first() =~= lines(cs@.skip(e + 1)));
        from = e + 1;
    }
}

/// `c` is white space as `char::is_whitespace` tells: Unicode's White_Space.
pub open spec fn is_white_space(c: char) -> bool {
    let u = c as u32;
    ||| 0x09 <= u <= 0x0D
    ||| u == 0x20
    ||| u == 0x85
    ||| u == 0xA0
    ||| u == 0x1680
    ||| 0x2000 <= u <= 0x200A
    ||| u == 0x2028
    ||| u == 0x2029
    ||| u == 0x202F
    ||| u == 0x205F
    ||| u == 0x3000
}

/// `s` without its leading white space.
pub open spec fn trim_start(s: Seq<char>) -> Seq<char>
    decreases s.len(),
{
    if s.len() > 0 && is_white_space(s[0]) {
        trim_start(s.drop_first())
    } else {
        s
    }
}

/// `s` without its trailing white space.
pub open spec fn trim_end(s: Seq<char>) -> Seq<char>
    decreases s.len(),
{
    if s.len() > 0 && is_white_space(s.last()) {
        trim_end(s.drop_last())
    } else {
        s
    }
}

/// `s` without white space at either end, as `str::trim` gives it.
pub open spec fn trim(s: Seq<char>) -> Seq<char> {
    trim_end(trim_start(s))
}

/// `c` is one of the ASCII digits `0` to `9`.
pub open spec fn is_digit(c: char) -> bool {
    48 <= c as u32 <= 57
}

/// The number that the digits `s` write in base ten.
pub open spec fn digits_value(s: Seq<char>) -> nat
    decreases s.len(),
{
    if s.len() == 0 {
        0
    } else {
        digits_value(s.drop_last()) * 10 + (s.last() as u32 - 48) as nat
    }
}

/// `s` without one leading plus sign.
pub open spec fn unsigned_digits(s: Seq<char>) -> Seq<char> {
    if s.len() > 0 && s[0] == '+' {
        s.drop_first()
    } else {
        s
    }
}

/// What `s.parse::<u64>()` gives: the number when `s` is a nonempty run of
/// digits, after one optional plus sign, whose value fits in 64 bits.
pub open spec fn parse_u64(s: Seq<char>) -> Option<u64> {
    let d = unsigned_digits(s);
    if d.len() > 0 && (forall|i: int| 0 <= i < d.len() ==> is_digit(#[trigger] d[i]))
        && digits_value(d) <= u64::MAX {
        Some(digits_value(d) as u64)
    } else {
        None
    }
}

/// Whether `c` is white space.
pub fn white_space(c: char) -> (b: bool)
    ensures
        b == is_white_space(c),
{
    let u = c as u32;
    (0x09 <= u && u <= 0x0D) || u == 0x20 || u == 0x85 || u == 0xA0 || u == 0x1680 || (0x2000 <= u
        && u <= 0x200A) || u == 0x2028 || u == 0x2029 || u == 0x202F || u == 0x205F || u == 0x3000
}

proof fn lemma_trim_start_skip(s: Seq<char>, i: int)
    requires
        0 <= i < s.len(),
        is_white_space(s[i]),
    ensures
        trim_start(s.skip(i)) == trim_start(s.skip(i + 1)),
{
    assert(s.skip(i).drop_first() =~= s.skip(i + 1));
}

proof fn lemma_trim_end_take(s: Seq<char>, j: int)
    requires
        0 < j <= s.len(),
        is_white_space(s[j - 1]),
    ensures
        trim_end(s.take(j)) == trim_end(s.take(j - 1)),
{
    assert(s.take(j).drop_last() =~= s.take(j - 1));
}

/// The bounds `[start, end)` of `cs` without white space at either end.
fn trim_bounds(cs: &Vec<char>) -> (r: (usize, usize))
    ensures
        r.0 <= r.1 <= cs.len(),
        cs@.subrange(r.0 as int, r.1 as int) == trim(cs@),
{
    let mut start: usize = 0;
    assert(cs@.skip(0) =~= cs@);
    while start < cs.len() && white_space(cs[start])
        invariant
            start <= cs.len(),
            trim_start(cs@.skip(start as int)) == trim_start(cs@),
        decreases cs.len() - start,
    {
        proof {
            lemma_trim_start_skip(cs@, start as int);
        }
        start = start + 1;
    }
    let ghost t = cs@.skip(start as int);
    assert(trim_start(t) == t);
    let mut end: usize = cs.len();
    assert(t.take(t.len() as int) =~= t);
    while end > start && white_space(cs[end - 1])
        invariant
            start <= end <= cs.len(),
            t == cs@.skip(start as int),
            trim_end(t.take(end - start)) == trim_end(t),
        decreases end,
    {
        proof {
            lemma_trim_end_take(t, end - start);
        }
        end = end - 1;
    }
    let ghost u = t.take(end - start);
    assert(trim_end(u) == u);
    assert(u =~= cs@.subrange(start as int, end as int));
    (start, end)
}

proof fn lemma_digits_value_grows(s: Seq<char>, k: int)
    requires
        0 <= k <= s.len(),
        forall|i: int| 0 <= i < s.len() ==> is_digit(#[trigger] s[i]),
    ensures
        digits_value(s.take(k)) <= digits_value(s),
    decreases s.len() - k,
{
    if k < s.len() {
        assert(s.drop_last().take(k) =~= s.take(k));
        lemma_digits_value_grows(s.drop_last(), k);
    } else {
        assert(s.take(k) =~= s);
    }
}

/// `cs[start..end]` read as a number the way `str::parse::<u64>` reads it.
fn parse_u64_range(cs: &Vec<char>, start: usize, end: usize) -> (r: Option<u64>)
    requires
        start <= end <= cs.len(),
    ensures
        r == parse_u64(cs@.subrange(start as int, end as int)),
{
    let ghost s = cs@.subrange(start as int, end as int);
    let mut i = start;
    if i < end && cs[i] == '+' {
        i = i + 1;
    }
    let ghost d = cs@.subrange(i as int, end as int);
    assert(d =~= unsigned_digits(s));
    if i == end {
        return None;
    }
    let mut acc: u64 = 0;
    let mut j = i;
    assert(d.take(0) =~= Seq::<char>::empty());
    while j < end
        invariant
            i <= j <= end <= cs.len(),
            d == cs@.subrange(i as int, end as int),
            s == cs@.subrange(start as int, end as int),
            d == unsigned_digits(s),
            d.len() > 0,
            forall|k: int| 0 <= k < j - i ==> is_digit(#[trigger] d[k]),
            acc == digits_value(d.take(j - i)),
        decreases end - j,
    {
        let c = cs[j];
        if !(48 <= c as u32 && c as u32 <= 57) {
            assert(!is_digit(d[j - i]));
            return None;
        }
        let v = (c as u32 - 48) as u64;
        assert(d[j - i] == c);
        assert(d.take(j - i + 1).drop_last() =~= d.take(j - i));
        assert(d.take(j - i + 1).last() == c);
        assert(digits_value(d.take(j - i + 1)) == acc * 10 + v);
        if acc > (u64::MAX - v) / 10 {
            proof {
                assert(acc * 10 + v > u64::MAX) by (nonlinear_arith)
                    requires
                        acc > (u64::MAX - v) / 10,
                        v <= 9,
                ;
                assert(d.take(j - i + 1).last() == c);
                assert(digits_value(d.take(j - i + 1)) == acc * 10 + v);
                if forall|k: int| 0 <= k < d.len() ==> is_digit(#[trigger] d[k]) {
                    lemma_digits_value_grows(d, j - i + 1);
                }
            }
            return None;
        }
        acc = acc * 10 + v;
        j = j + 1;
    }
    assert(d.take(d.len() as int) =~= d);
    Some(acc)
}

/// What `text.trim().parse::<u64>()` gives.
pub fn parse_trimmed_u64(text: &str) -> (r: Option<u64>)
    ensures
        r == parse_u64(trim(text@)),
{
    let cs = chars_of(text);
    let (start, end) = trim_bounds(&cs);
    parse_u64_range(&cs, start, end)
}

/// The slot that the first of the `uevent` files of the graphics cards names,
/// skipping cards whose file could not be read (`None`) or names no slot.
pub open spec fn first_pci_slot(uevents: Seq<Option<String>>) -> Option<Seq<char>>
    decreases uevents.len(),
{
    if uevents.len() == 0 {
        None
    } else {
        match uevents[0] {
            Some(u) => match pci_slot_in(u@) {
                Some(slot) => Some(slot),
                None => first_pci_slot(uevents.drop_first()),
            },
            None => first_pci_slot(uevents.drop_first()),
        }
    }
}

/// The PCI slot of the graphics card, from the contents of the `uevent` files
/// of the cards in the order they are tried (`None` for a file that could not
/// be read).
pub fn pci_slot_from_uevents(uevents: &Vec<Option<String>>) -> (slot: Option<String>)
    ensures
        slot matches Some(s) ==> first_pci_slot(uevents@) == Some(s@),
        slot is None ==> first_pci_slot(uevents@) is None,
{
    let mut i: usize = 0;
    assert(uevents@.skip(0) =~= uevents@);
    while i < uevents.len()
        invariant
            i <= uevents.len(),
            first_pci_slot(uevents@) == first_pci_slot(uevents@.skip(i as int)),
        decreases uevents.len() - i,
    {
        assert(uevents@.skip(i as int).drop_first() =~= uevents@.skip(i + 1));
        assert(uevents@.skip(i as int)[0] == uevents@[i as int]);
        if let Some(u) = &uevents[i] {
            if let Some(slot) = pci_slot_name(u.as_str()) {
                return Some(slot);
            }
        }
        i = i + 1;
    }
    None
}

/// The used and total video memory, in bytes, that one card's
/// `mem_info_vram_used` and `mem_info_vram_total` files give: both files read,
/// both hold a number, and the total is not zero.
pub open spec fn card_vram(used: Option<String>, total: Option<String>) -> Option<(u64, u64)> {
    match (used, total) {
        (Some(u), Some(t)) => match (parse_u64(trim(u@)), parse_u64(trim(t@))) {
            (Some(a), Some(b)) => if b > 0 {
                Some((a, b))
            } else {
                None
            },
            _ => None,
        },
        _ => None,
    }
}

/// The video memory figures of the first card whose files give them.
pub open spec fn first_card_vram(cards: Seq<(Option<String>, Option<String>)>) -> Option<(u64, u64)>
    decreases cards.len(),
{
    if cards.len() == 0 {
        None
    } else {
        match card_vram(cards[0].0, cards[0].1) {
            Some(v) => Some(v),
            None => first_card_vram(cards.drop_first()),
        }
    }
}

/// The used and total video memory of one card, from the contents of its two
/// sysfs files (`None` for a file that could not be read).
pub fn vram_of_card(used: &Option<String>, total: &Option<String>) -> (r: Option<(u64, u64)>)
    ensures
        r == card_vram(*used, *total),
{
    match (used, total) {
        (Some(u), Some(t)) => match (parse_trimmed_u64(u.as_str()), parse_trimmed_u64(t.as_str())) {
            (Some(a), Some(b)) => if b > 0 {
                Some((a, b))
            } else {
                None
            },
            _ => None,
        },
        _ => None,
    }
}

/// The used and total video memory from the sysfs files of the cards, in the
/// order they are tried: those of the first card whose files give them.
pub fn vram_from_sysfs(cards: &Vec<(Option<String>, Option<String>)>) -> (r: Option<(u64, u64)>)
    ensures
        r == first_card_vram(cards@),
{
    let mut i: usize = 0;
    assert(cards@.skip(0) =~= cards@);
    while i < cards.len()
        invariant
            i <= cards.len(),
            first_card_vram(cards@) == first_card_vram(cards@.skip(i as int)),
        decreases cards.len() - i,
    {
        assert(cards@.skip(i as int).drop_first() =~= cards@.skip(i + 1));
        assert(cards@.skip(i as int)[0] == cards@[i as int]);
        let r = vram_of_card(&cards[i].0, &cards[i].1);
        if r.is_some() {
            return r;
        }
        i = i + 1;
    }
    None
}

/// How a graphics card is looked up through NVIDIA's management library.
pub enum GpuDevice {
    /// By its PCI bus id.
    BusId(String),
    /// By its position among the cards the library knows.
    Index(u32),
}

/// The lookups to try, in order, to reach the graphics card through NVIDIA's
/// management library: first the card at the PCI slot that sysfs names, if it
/// names one, then the library's first card.
pub fn nvml_devices(pci_slot: Option<String>) -> (devices: Vec<GpuDevice>)
    ensures
        match pci_slot {
            Some(slot) => {
                &&& devices.len() == 2
                &&& devices[0] matches GpuDevice::BusId(b) && b@ == slot@
                &&& devices[1] matches GpuDevice::Index(i) && i == 0
            },
            None => {
                &&& devices.len() == 1
                &&& devices[0] matches GpuDevice::Index(i) && i == 0
            },
        },
{
    let mut devices: Vec<GpuDevice> = Vec::new();
    if let Some(slot) = pci_slot {
        devices.push(GpuDevice::BusId(slot));
    }
    devices.push(GpuDevice::Index(0));
    devices
}

/// The cards are tried in order: when the first card's file is read and names
/// a slot, that slot is the answer whatever the later files hold; a card whose
/// file was not read, or names no slot, is passed over for the rest.
pub proof fn lemma_first_card_naming_a_slot_wins(
    u: String,
    rest: Seq<Option<String>>,
)
    ensures
        pci_slot_in(u@) is Some ==> first_pci_slot(seq![Some(u)] + rest) == pci_slot_in(u@),
        pci_slot_in(u@) is None ==> first_pci_slot(seq![Some(u)] + rest) == first_pci_slot(rest),
        first_pci_slot(seq![None] + rest) == first_pci_slot(rest),
        first_pci_slot(Seq::<Option<String>>::empty()) is None,
{
    let s = seq![Some(u)] + rest;
    assert(s[0] == Some(u));
    assert(s.drop_first() =~= rest);
    let t = seq![None::<String>] + rest;
    assert(t[0] == None::<String>);
    assert(t.drop_first() =~= rest);
}

/// The cards are tried in order for the video memory too: the first card whose
/// two files give the figures wins, whatever the later cards hold; a card
/// whose files give none is passed over.
pub proof fn lemma_first_card_giving_vram_wins(
    card: (Option<String>, Option<String>),
    rest: Seq<(Option<String>, Option<String>)>,
)
    ensures
        card_vram(card.0, card.1) is Some ==> first_card_vram(seq![card] + rest) == card_vram(
            card.0,
            card.1,
        ),
        card_vram(card.0, card.1) is None ==> first_card_vram(seq![card] + rest)
            == first_card_vram(rest),
{
    let s = seq![card] + rest;
    assert(s[0] == card);
    assert(s.drop_first() =~= rest);
}

/// A card's files give figures exactly when both were read, both hold a number
/// and the total is not zero; the figures are those numbers, used first.
pub proof fn lemma_card_vram_reads_both_files(used: String, total: String)
    ensures
        card_vram(Some(used), Some(total)) is Some <==> parse_u64(trim(used@)) is Some && parse_u64(
            trim(total@),
        ) is Some && parse_u64(trim(total@))->0 > 0,
        card_vram(Some(used), Some(total)) matches Some(v) ==> v.0 == parse_u64(trim(used@))->0
            && v.1 == parse_u64(trim(total@))->0,
        card_vram(None, Some(total)) is None,
        card_vram(Some(used), None) is None,
{
}

/// The numeral the library writes for `n` is a nonempty run of digits with no
/// leading zero (but for zero itself) that reads back as `n`: parsing it as a
/// `u64` gives `n` again.
pub proof fn lemma_decimal_reads_back(n: nat)
    ensures
        crate::text::decimal(n).len() > 0,
        forall|i: int|
            0 <= i < crate::text::decimal(n).len() ==> is_digit(#[trigger] crate::text::decimal(n)[i]),
        digits_value(crate::text::decimal(n)) == n,
        n > 0 ==> crate::text::decimal(n)[0] != '0',
        n <= u64::MAX ==> parse_u64(crate::text::decimal(n)) == Some(n as u64),
    decreases n,
{
    let d = crate::text::decimal(n);
    let c = crate::text::digit_char(n % 10);
    assert(c as u32 == n % 10 + 48);
    if n >= 10 {
        lemma_decimal_reads_back(n / 10);
        let p = crate::text::decimal(n / 10);
        assert(d == p.push(c));
        assert(d.drop_last() =~= p);
        assert(d[0] == p[0]);
        assert(d.last() == c);
        assert(digits_value(d) == digits_value(p) * 10 + (n % 10));
        assert(n / 10 * 10 + n % 10 == n);
    } else {
        assert(d == seq![c]);
        assert(d.drop_last() =~= Seq::<char>::empty());
        assert(d.last() == c);
        assert(digits_value(d) == digits_value(Seq::<char>::empty()) * 10 + (n % 10));
    }
    assert(unsigned_digits(d) == d);
}

/// Files are read line by line: a first line `l`, holding no line feed and
/// ended by one, comes first (less one carriage return at its end), followed
/// by the lines of the rest; text without a line feed is one line, whole.
pub proof fn lemma_lines_split_at_line_feeds(l: Seq<char>, rest: Seq<char>)
    requires
        forall|i: int| 0 <= i < l.len() ==> l[i] != '\n',
    ensures
        lines(l + seq!['\n'] + rest) == seq![
            if l.len() > 0 && l.last() == '\r' {
                l.drop_last()
            } else {
                l
            },
        ] + lines(rest),
        l.len() > 0 ==> lines(l) == seq![l],
{
    let s = l + seq!['\n'] + rest;
    lemma_line_end(s, l.len() as int);
    assert(s.take(l.len() as int) =~= l);
    assert(s.skip(l.len() + 1int) =~= rest);
    if l.len() > 0 {
        lemma_line_end(l, l.len() as int);
    }
}

/// The slot is read from the first line that begins with `PCI_SLOT_NAME=`:
/// such a first line gives what follows the key, whatever comes after it, and
/// a first line that does not begin with the key is passed over.
pub proof fn lemma_slot_from_first_keyed_line(l: Seq<char>, rest: Seq<char>)
    requires
        forall|i: int| 0 <= i < l.len() ==> l[i] != '\n',
        l.len() == 0 || l.last() != '\r',
    ensures
        l.len() >= "PCI_SLOT_NAME="@.len() && l.take("PCI_SLOT_NAME="@.len() as int)
            == "PCI_SLOT_NAME="@ ==> pci_slot_in(l + seq!['\n'] + rest) == Some(
            l.skip("PCI_SLOT_NAME="@.len() as int),
        ),
        !(l.len() >= "PCI_SLOT_NAME="@.len() && l.take("PCI_SLOT_NAME="@.len() as int)
            == "PCI_SLOT_NAME="@) ==> pci_slot_in(l + seq!['\n'] + rest) == pci_slot_in(rest),
{
    lemma_lines_split_at_line_feeds(l, rest);
    let ls = seq![l] + lines(rest);
    assert(ls[0] == l);
    assert(ls.drop_first() =~= lines(rest));
}

proof fn lemma_trim_start_skips(w: Seq<char>, x: Seq<char>)
    requires
        forall|i: int| 0 <= i < w.len() ==> is_white_space(#[trigger] w[i]),
    ensures
        trim_start(w + x) == trim_start(x),
    decreases w.len(),
{
    if w.len() > 0 {
        assert((w + x)[0] == w[0]);
        assert((w + x).drop_first() =~= w.drop_first() + x);
        lemma_trim_start_skips(w.drop_first(), x);
    } else {
        assert(w + x =~= x);
    }
}

proof fn lemma_trim_end_skips(x: Seq<char>, w: Seq<char>)
    requires
        forall|i: int| 0 <= i < w.len() ==> is_white_space(#[trigger] w[i]),
    ensures
        trim_end(x + w) == trim_end(x),
    decreases w.len(),
{
    if w.len() > 0 {
        assert((x + w).last() == w.last());
        assert((x + w).drop_last() =~= x + w.drop_last());
        lemma_trim_end_skips(x, w.drop_last());
    } else {
        assert(x + w =~= x);
    }
}

/// Trimming drops exactly the white space around a text that neither begins
/// nor ends with white space.
pub proof fn lemma_trim_drops_surrounding_white_space(w1: Seq<char>, d: Seq<char>, w2: Seq<char>)
    requires
        forall|i: int| 0 <= i < w1.len() ==> is_white_space(#[trigger] w1[i]),
        forall|i: int| 0 <= i < w2.len() ==> is_white_space(#[trigger] w2[i]),
        d.len() > 0,
        !is_white_space(d[0]),
        !is_white_space(d.last()),
    ensures
        trim(w1 + d + w2) == d,
{
    lemma_trim_start_skips(w1, d + w2);
    assert(w1 + d + w2 =~= w1 + (d + w2));
    assert((d + w2)[0] == d[0]);
    lemma_trim_end_skips(d, w2);
}

/// A number written in decimal, with any white space around it, reads back as
/// that number, as the video memory files are read.
pub proof fn lemma_padded_numeral_reads_back(w1: Seq<char>, n: u64, w2: Seq<char>)
    requires
        forall|i: int| 0 <= i < w1.len() ==> is_white_space(#[trigger] w1[i]),
        forall|i: int| 0 <= i < w2.len() ==> is_white_space(#[trigger] w2[i]),
    ensures
        parse_u64(trim(w1 + crate::text::decimal(n as nat) + w2)) == Some(n),
{
    let d = crate::text::decimal(n as nat);
    lemma_decimal_reads_back(n as nat);
    assert(is_digit(d[0]));
    assert(is_digit(d[d.len() - 1]));
    lemma_trim_drops_surrounding_white_space(w1, d, w2);
}

/// A `u64` is read only from a nonempty run of the digits `0` to `9`, after
/// at most one leading plus sign: an empty text, a lone sign, or any other
/// character anywhere gives nothing.
pub proof fn lemma_parse_needs_digits(s: Seq<char>, i: int)
    ensures
        s.len() == 0 ==> parse_u64(s) is None,
        s == seq!['+'] ==> parse_u64(s) is None,
        0 <= i < s.len() && !(48 <= s[i] as u32 <= 57) && !(i == 0 && s[0] == '+') ==> parse_u64(
            s,
        ) is None,
        parse_u64(s) matches Some(v) ==> v == digits_value(unsigned_digits(s)),
{
    if 0 <= i < s.len() && !(48 <= s[i] as u32 <= 57) && !(i == 0 && s[0] == '+') {
        let d = unsigned_digits(s);
        if s.len() > 0 && s[0] == '+' {
            assert(d[i - 1] == s[i]);
            assert(!is_digit(d[i - 1]));
        } else {
            assert(d[i] == s[i]);
            assert(!is_digit(d[i]));
        }
    }
    if s == seq!['+'] {
        assert(unsigned_digits(s).len() == 0);
    }
}

} // verus!
