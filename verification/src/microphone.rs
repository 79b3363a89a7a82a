//! Choice of the input device.
//!
//! A Bluetooth headset drops to low-quality call mode while its microphone is open, so it is
//! used only where no local microphone is usable.

use vstd::prelude::*;

use crate::text;

verus! {

/// A device name of a Bluetooth headset, by its ASCII-lowercase form.
pub open spec fn bluetooth_name(name: Seq<char>) -> bool {
    let n = text::ascii_lower(name);
    ||| text::contains(n, "airpods"@)
    ||| text::contains(n, "hands-free"@)
    ||| text::contains(n, "handsfree"@)
    ||| text::contains(n, "bluetooth"@)
    ||| text::contains(n, "hfp"@)
    ||| text::contains(n, "a2dp"@)
    ||| text::contains(n, "powerbeats"@)
    ||| text::contains(n, "beats "@)
    ||| text::starts_with(n, "beats"@)
}

/// A device name of a microphone built into a Mac, by its ASCII-lowercase form.
pub open spec fn built_in_name(name: Seq<char>) -> bool {
    let n = text::ascii_lower(name);
    ||| text::contains(n, "macbook"@)
    ||| text::contains(n, "imac"@)
    ||| text::contains(n, "mac mini"@)
    ||| text::contains(n, "mac studio"@)
    ||| text::contains(n, "mac pro"@)
    ||| text::contains(n, "built-in"@)
    ||| text::contains(n, "built in"@)
    ||| text::contains(n, "internal microphone"@)
}

/// A device name of a virtual or aggregate input, by its ASCII-lowercase form.
pub open spec fn virtual_name(name: Seq<char>) -> bool {
    let n = text::ascii_lower(name);
    ||| text::contains(n, "blackhole"@)
    ||| text::contains(n, "loopback"@)
    ||| text::contains(n, "soundflower"@)
    ||| text::contains(n, "aggregate"@)
    ||| text::contains(n, "multi-output"@)
    ||| text::contains(n, "zoomaudio"@)
}

/// A device name of a MacBook's own microphone.
pub open spec fn macbook_name(name: Seq<char>) -> bool {
    text::contains(text::ascii_lower(name), "macbook"@)
}

/// A device that makes a Bluetooth headset unnecessary.
pub open spec fn local_input(name: Seq<char>, macbook_mic_usable: bool) -> bool {
    &&& !bluetooth_name(name)
    &&& !virtual_name(name)
    &&& macbook_name(name) ==> macbook_mic_usable
}

/// How much a device is preferred; `None` where it must not be used.
pub open spec fn score(
    name: Seq<char>,
    is_default: bool,
    macbook_mic_usable: bool,
    allow_bluetooth: bool,
) -> Option<i32> {
    if bluetooth_name(name) {
        if allow_bluetooth {
            Some(10i32)
        } else {
            None
        }
    } else if built_in_name(name) && !(virtual_name(name) && !is_default) {
        if macbook_name(name) && !macbook_mic_usable {
            Some(5i32)
        } else if is_default {
            Some(200i32)
        } else {
            Some(100i32)
        }
    } else if virtual_name(name) {
        if is_default {
            Some(20i32)
        } else {
            None
        }
    } else if is_default {
        Some(160i32)
    } else {
        Some(60i32)
    }
}

/// Whether a device name is that of a Bluetooth headset.
pub fn is_bluetooth_input(name: &str) -> (r: bool)
    ensures
        r == bluetooth_name(name@),
{
    let n = text::to_ascii_lower(name);
    text::has(&n, "airpods") || text::has(&n, "hands-free") || text::has(&n, "handsfree")
        || text::has(&n, "bluetooth") || text::has(&n, "hfp") || text::has(&n, "a2dp")
        || text::has(&n, "powerbeats") || text::has(&n, "beats ") || text::begins(&n, "beats")
}

/// Whether a device name is that of a microphone built into a Mac.
pub fn is_built_in_input(name: &str) -> (r: bool)
    ensures
        r == built_in_name(name@),
{
    let n = text::to_ascii_lower(name);
    text::has(&n, "macbook") || text::has(&n, "imac") || text::has(&n, "mac mini") || text::has(
        &n,
        "mac studio",
    ) || text::has(&n, "mac pro") || text::has(&n, "built-in") || text::has(&n, "built in")
        || text::has(&n, "internal microphone")
}

/// Whether a device name is that of a virtual or aggregate input.
pub fn is_virtual_input(name: &str) -> (r: bool)
    ensures
        r == virtual_name(name@),
{
    let n = text::to_ascii_lower(name);
    text::has(&n, "blackhole") || text::has(&n, "loopback") || text::has(&n, "soundflower")
        || text::has(&n, "aggregate") || text::has(&n, "multi-output") || text::has(
        &n,
        "zoomaudio",
    )
}

/// Whether a device name is that of a MacBook's own microphone.
fn is_macbook_input(name: &str) -> (r: bool)
    ensures
        r == macbook_name(name@),
{
    text::has(&text::to_ascii_lower(name), "macbook")
}

/// Whether the built-in display is among the active ones, given whether each of them is
/// built in; `None` where they cannot be listed.
pub fn builtin_display_active(displays: Option<&[bool]>) -> (r: bool)
    ensures
        r == match displays {
            Some(built_in) => built_in@.contains(true),
            // Prefer the built-in mic when we cannot tell; that is the common desk case.
            None => true,
        },
{
    match displays {
        Some(built_in) => {
            let mut i: usize = 0;
            while i < built_in.len()
                invariant
                    displays == Some(built_in),
                    i <= built_in@.len(),
                    forall|j: int| 0 <= j < i ==> !built_in@[j],
                decreases built_in@.len() - i,
            {
                if built_in[i] {
                    assert(built_in@.contains(built_in@[i as int]));
                    return true;
                }
                i = i + 1;
            }
            false
        },
        None => true,
    }
}

/// Whether a device makes a Bluetooth headset unnecessary.
pub fn is_usable_non_bluetooth(name: &str, macbook_mic_usable: bool) -> (r: bool)
    ensures
        r == local_input(name@, macbook_mic_usable),
{
    if is_bluetooth_input(name) || is_virtual_input(name) {
        return false;
    }
    if is_macbook_input(name) && !macbook_mic_usable {
        return false;
    }
    true
}

/// How much a device is preferred; `None` where it must not be used.
pub fn input_candidate_score(
    name: &str,
    is_default: bool,
    macbook_mic_usable: bool,
    allow_bluetooth: bool,
) -> (r: Option<i32>)
    ensures
        r == score(name@, is_default, macbook_mic_usable, allow_bluetooth),
{
    if is_bluetooth_input(name) {
        return if allow_bluetooth {
            Some(10)
        } else {
            None
        };
    }
    let is_virtual = is_virtual_input(name);
    if is_virtual && !is_default {
        return None;
    }
    let class: i32 = if is_built_in_input(name) {
        if is_macbook_input(name) && !macbook_mic_usable {
            5
        } else {
            100
        }
    } else if is_virtual {
        20
    } else {
        60
    };
    let default_bonus: i32 = if is_default && class >= 60 {
        100
    } else {
        0
    };
    Some(class + default_bonus)
}

// ---- The best device by name ----

/// No device of `names` makes a Bluetooth headset unnecessary.
pub open spec fn bluetooth_allowed(names: Seq<Seq<char>>, macbook_mic_usable: bool) -> bool {
    forall|i: int| 0 <= i < names.len() ==> !local_input(#[trigger] names[i], macbook_mic_usable)
}

/// The score of each of `names` where `default` names the system default.
pub open spec fn name_score(
    default: Seq<char>,
    names: Seq<Seq<char>>,
    macbook_mic_usable: bool,
    i: int,
) -> Option<i32> {
    score(
        names[i],
        names[i] == default,
        macbook_mic_usable,
        bluetooth_allowed(names, macbook_mic_usable),
    )
}

/// Device `i` is the first of the best-scored devices.
pub open spec fn best_name(
    default: Seq<char>,
    names: Seq<Seq<char>>,
    macbook_mic_usable: bool,
    i: int,
) -> bool {
    &&& 0 <= i < names.len()
    &&& name_score(default, names, macbook_mic_usable, i) is Some
    &&& forall|j: int|
        0 <= j < names.len() && (#[trigger] name_score(
            default,
            names,
            macbook_mic_usable,
            j,
        )) is Some ==> {
            let other = name_score(default, names, macbook_mic_usable, j)->0;
            let mine = name_score(default, names, macbook_mic_usable, i)->0;
            other < mine || (other == mine && i <= j)
        }
}

/// The characters of each name.
pub open spec fn name_views(names: Seq<&str>) -> Seq<Seq<char>> {
    Seq::new(names.len(), |i: int| names[i]@)
}

/// The name of the device to use: the first of the best-scored ones, the default where none
/// is usable.
pub open spec fn chosen_name(
    default: Seq<char>,
    names: Seq<Seq<char>>,
    macbook_mic_usable: bool,
) -> Seq<char> {
    if exists|i: int| best_name(default, names, macbook_mic_usable, i) {
        names[choose|i: int| best_name(default, names, macbook_mic_usable, i)]
    } else {
        default
    }
}

/// The device to use where the MacBook's own microphone is usable.
pub fn choose_input_name<'a>(default: &'a str, available: &[&'a str]) -> (r: &'a str)
    ensures
        r@ == chosen_name(default@, name_views(available@), true),
{
    choose_input_name_with(default, available, true)
}

/// The device to use: the first of the best-scored ones, the default where none is usable.
pub fn choose_input_name_with<'a>(
    default: &'a str,
    available: &[&'a str],
    macbook_mic_usable: bool,
) -> (r: &'a str)
    ensures
        r@ == chosen_name(default@, name_views(available@), macbook_mic_usable),
{
    let ghost names = name_views(available@);
    let ghost d = default@;
    let mut allow_bluetooth = true;
    let mut i: usize = 0;
    while i < available.len()
        invariant
            i <= available@.len(),
            names == name_views(available@),
            allow_bluetooth == (forall|j: int|
                0 <= j < i ==> !local_input(#[trigger] names[j], macbook_mic_usable)),
        decreases available@.len() - i,
    {
        assert(names[i as int] == available@[i as int]@);
        if is_usable_non_bluetooth(available[i], macbook_mic_usable) {
            allow_bluetooth = false;
        }
        i = i + 1;
    }
    let mut best: Option<(usize, i32)> = None;
    let mut i: usize = 0;
    while i < available.len()
        invariant
            i <= available@.len(),
            names == name_views(available@),
            d == default@,
            allow_bluetooth == bluetooth_allowed(names, macbook_mic_usable),
            match best {
                Some((k, s)) => {
                    &&& k < i
                    &&& name_score(d, names, macbook_mic_usable, k as int) == Some(s)
                    &&& forall|j: int|
                        0 <= j < i && (#[trigger] name_score(
                            d,
                            names,
                            macbook_mic_usable,
                            j,
                        )) is Some ==> {
                            let other = name_score(d, names, macbook_mic_usable, j)->0;
                            other < s || (other == s && k <= j)
                        }
                },
                None => forall|j: int|
                    0 <= j < i ==> (#[trigger] name_score(
                        d,
                        names,
                        macbook_mic_usable,
                        j,
                    )) is None,
            },
        decreases available@.len() - i,
    {
        assert(names[i as int] == available@[i as int]@);
        let is_default = text::same(available[i], default);
        let scored = input_candidate_score(
            available[i],
            is_default,
            macbook_mic_usable,
            allow_bluetooth,
        );
        assert(scored == name_score(d, names, macbook_mic_usable, i as int));
        match scored {
            Some(s) => {
                let better = match best {
                    Some((_, best_score)) => best_score < s,
                    None => true,
                };
                if better {
                    best = Some((i, s));
                }
            },
            None => {},
        }
        i = i + 1;
    }
    match best {
        Some((k, _)) => {
            assert(best_name(d, names, macbook_mic_usable, k as int));
            proof {
                let j = choose|j: int| best_name(d, names, macbook_mic_usable, j);
                assert(name_score(d, names, macbook_mic_usable, k as int) is Some);
                assert(name_score(d, names, macbook_mic_usable, j) is Some);
                assert(j == k);
            }
            available[k]
        },
        None => default,
    }
}

// ---- All usable devices, best first ----

/// Where to capture from.
pub enum Candidates {
    /// The devices at these positions, best first.
    Devices(Vec<usize>),
    /// No device is usable by name: whatever the system default is.
    SystemDefault,
}

/// A device that has a name makes a Bluetooth headset unnecessary.
pub open spec fn has_local_device(names: Seq<Option<String>>, macbook_mic_usable: bool) -> bool {
    exists|i: int|
        0 <= i < names.len() && (#[trigger] names[i]) is Some && local_input(
            names[i]->0@,
            macbook_mic_usable,
        )
}

/// The score of device `i`; one whose name cannot be read must not be used.
pub open spec fn device_score(
    default: Option<Seq<char>>,
    names: Seq<Option<String>>,
    macbook_mic_usable: bool,
    i: int,
) -> Option<i32> {
    match names[i] {
        Some(name) => score(
            name@,
            default == Some(name@),
            macbook_mic_usable,
            !has_local_device(names, macbook_mic_usable),
        ),
        None => None,
    }
}

/// Device `i` comes before device `j`: it scores better, or equally and was listed before.
pub open spec fn ranks_before(
    default: Option<Seq<char>>,
    names: Seq<Option<String>>,
    macbook_mic_usable: bool,
    i: int,
    j: int,
) -> bool {
    let a = device_score(default, names, macbook_mic_usable, i)->0;
    let b = device_score(default, names, macbook_mic_usable, j)->0;
    a > b || (a == b && i < j)
}

/// `order` lists exactly the usable devices among the first `n`, best first.
pub open spec fn is_ranking(
    default: Option<Seq<char>>,
    names: Seq<Option<String>>,
    macbook_mic_usable: bool,
    n: int,
    order: Seq<usize>,
) -> bool {
    &&& forall|a: int|
        0 <= a < order.len() ==> (#[trigger] order[a]) < n && device_score(
            default,
            names,
            macbook_mic_usable,
            order[a] as int,
        ) is Some
    &&& forall|i: int|
        0 <= i < n && (#[trigger] device_score(default, names, macbook_mic_usable, i)) is Some
            ==> exists|a: int| 0 <= a < order.len() && #[trigger] order[a] == i
    &&& forall|a: int, b: int|
        0 <= a < b < order.len() ==> ranks_before(
            default,
            names,
            macbook_mic_usable,
            #[trigger] order[a] as int,
            #[trigger] order[b] as int,
        )
}

/// The characters of an optional name.
pub open spec fn opt_view(name: Option<&str>) -> Option<Seq<char>> {
    match name {
        Some(s) => Some(s@),
        None => None,
    }
}

/// The devices to try, best first. `names` holds the name of each input device, `None` where
/// it cannot be read.
pub fn candidate_input_devices(
    default_name: Option<&str>,
    names: &[Option<String>],
    macbook_mic_usable: bool,
) -> (r: Candidates)
    ensures
        match r {
            Candidates::Devices(order) => order@.len() > 0 && is_ranking(
                opt_view(default_name),
                names@,
                macbook_mic_usable,
                names@.len() as int,
                order@,
            ),
            Candidates::SystemDefault => forall|i: int|
                0 <= i < names@.len() ==> (#[trigger] device_score(
                    opt_view(default_name),
                    names@,
                    macbook_mic_usable,
                    i,
                )) is None,
        },
{
    let ghost d = opt_view(default_name);
    let ghost ns = names@;
    let mut local = false;
    let mut i: usize = 0;
    while i < names.len()
        invariant
            i <= names@.len(),
            ns == names@,
            local == (exists|j: int|
                0 <= j < i && (#[trigger] ns[j]) is Some && local_input(
                    ns[j]->0@,
                    macbook_mic_usable,
                )),
        decreases names@.len() - i,
    {
        if let Some(name) = &names[i] {
            if is_usable_non_bluetooth(name.as_str(), macbook_mic_usable) {
                assert(ns[i as int] is Some);
                local = true;
            }
        }
        i = i + 1;
    }
    assert(local == has_local_device(ns, macbook_mic_usable));
    let mut order: Vec<usize> = Vec::new();
    let mut scores: Vec<i32> = Vec::new();
    let mut i: usize = 0;
    while i < names.len()
        invariant
            i <= names@.len(),
            ns == names@,
            d == opt_view(default_name),
            local == has_local_device(ns, macbook_mic_usable),
            is_ranking(d, ns, macbook_mic_usable, i as int, order@),
            scores@.len() == order@.len(),
            forall|a: int|
                0 <= a < order@.len() ==> #[trigger] device_score(
                    d,
                    ns,
                    macbook_mic_usable,
                    order@[a] as int,
                ) == Some(scores@[a]),
        decreases names@.len() - i,
    {
        let scored = match &names[i] {
            Some(name) => {
                let is_default = match default_name {
                    Some(default) => text::same(default, name.as_str()),
                    None => false,
                };
                input_candidate_score(name.as_str(), is_default, macbook_mic_usable, !local)
            },
            None => None,
        };
        assert(scored == device_score(d, ns, macbook_mic_usable, i as int));
        if let Some(s) = scored {
            let ghost before = order@;
            let ghost before_scores = scores@;
            let mut at: usize = 0;
            while at < order.len() && scores[at] >= s
                invariant
                    at <= order@.len(),
                    scores@.len() == order@.len(),
                    forall|a: int| 0 <= a < at ==> #[trigger] scores@[a] >= s,
                decreases order@.len() - at,
            {
                at = at + 1;
            }
            order.insert(at, i);
            scores.insert(at, s);
            proof {
                lemma_insert_keeps_ranking(
                    d,
                    ns,
                    macbook_mic_usable,
                    i as int,
                    before,
                    before_scores,
                    at as int,
                    s,
                    i,
                );
            }
        }
        i = i + 1;
    }
    if order.is_empty() {
        assert forall|i: int| 0 <= i < names@.len() implies (#[trigger] device_score(
            d,
            ns,
            macbook_mic_usable,
            i,
        )) is None by {
            if device_score(d, ns, macbook_mic_usable, i) is Some {
                let a = choose|a: int| 0 <= a < order@.len() && #[trigger] order@[a] == i;
                assert(false);
            }
        }
        return Candidates::SystemDefault;
    }
    Candidates::Devices(order)
}

/// Inserting the next device behind all that score at least as well keeps the ranking.
proof fn lemma_insert_keeps_ranking(
    d: Option<Seq<char>>,
    ns: Seq<Option<String>>,
    usable: bool,
    n: int,
    order: Seq<usize>,
    scores: Seq<i32>,
    at: int,
    s: i32,
    device: usize,
)
    requires
        is_ranking(d, ns, usable, n, order),
        scores.len() == order.len(),
        forall|a: int|
            0 <= a < order.len() ==> #[trigger] device_score(d, ns, usable, order[a] as int)
                == Some(scores[a]),
        0 <= at <= order.len(),
        forall|a: int| 0 <= a < at ==> #[trigger] scores[a] >= s,
        at < order.len() ==> scores[at] < s,
        device == n,
        device_score(d, ns, usable, n) == Some(s),
    ensures
        is_ranking(d, ns, usable, n + 1, order.insert(at, device)),
        forall|a: int|
            0 <= a < order.len() + 1 ==> #[trigger] device_score(
                d,
                ns,
                usable,
                order.insert(at, device)[a] as int,
            ) == Some(scores.insert(at, s)[a]),
{
    let new = order.insert(at, device);
    let old_at = |a: int| if a < at { a } else { a - 1 };
    assert forall|a: int| 0 <= a < new.len() implies #[trigger] device_score(
        d,
        ns,
        usable,
        new[a] as int,
    ) == Some(scores.insert(at, s)[a]) by {
        if a != at {
            assert(device_score(d, ns, usable, order[old_at(a)] as int) == Some(
                scores[old_at(a)],
            ));
        }
    }
    assert forall|a: int| 0 <= a < new.len() implies (#[trigger] new[a]) < n + 1 && device_score(
        d,
        ns,
        usable,
        new[a] as int,
    ) is Some by {
        if a != at {
            assert(order[old_at(a)] < n);
        }
    }
    assert forall|i: int| 0 <= i < n + 1 && (#[trigger] device_score(d, ns, usable, i)) is Some
        implies exists|a: int| 0 <= a < new.len() && #[trigger] new[a] == i by {
        if i == n {
            assert(new[at] == i);
        } else {
            let a = choose|a: int| 0 <= a < order.len() && #[trigger] order[a] == i;
            if a < at {
                assert(new[a] == i);
            } else {
                assert(new[a + 1] == i);
            }
        }
    }
    // Everything from `at` on scores below `s`.
    assert forall|b: int| at <= b < order.len() implies #[trigger] scores[b] < s by {
        assert(device_score(d, ns, usable, order[at] as int) == Some(scores[at]));
        assert(device_score(d, ns, usable, order[b] as int) == Some(scores[b]));
        if at < b {
            assert(ranks_before(d, ns, usable, order[at] as int, order[b] as int));
        }
    }
    assert forall|a: int, b: int| 0 <= a < b < new.len() implies ranks_before(
        d,
        ns,
        usable,
        #[trigger] new[a] as int,
        #[trigger] new[b] as int,
    ) by {
        if a != at {
            assert(device_score(d, ns, usable, order[old_at(a)] as int) == Some(
                scores[old_at(a)],
            ));
            assert(order[old_at(a)] < n);
        }
        if b != at {
            assert(device_score(d, ns, usable, order[old_at(b)] as int) == Some(
                scores[old_at(b)],
            ));
            assert(order[old_at(b)] < n);
        }
        if a != at && b != at {
            assert(ranks_before(
                d,
                ns,
                usable,
                order[old_at(a)] as int,
                order[old_at(b)] as int,
            ));
        }
    }
}

// ---- Laws ----

proof fn lemma_best_name_exists(
    default: Seq<char>,
    names: Seq<Seq<char>>,
    usable: bool,
    n: int,
) -> (k: int)
    requires
        0 <= n < names.len(),
        name_score(default, names, usable, n) is Some,
    ensures
        best_name(default, names, usable, k),
{
    lemma_best_from(default, names, usable, n, 0)
}

/// The best of the devices from `i` on, given the best, `best`, of those before.
proof fn lemma_best_from(
    default: Seq<char>,
    names: Seq<Seq<char>>,
    usable: bool,
    best: int,
    i: int,
) -> (k: int)
    requires
        0 <= best < names.len(),
        0 <= i <= names.len(),
        name_score(default, names, usable, best) is Some,
        forall|j: int|
            0 <= j < i && (#[trigger] name_score(default, names, usable, j)) is Some ==> {
                let other = name_score(default, names, usable, j)->0;
                let mine = name_score(default, names, usable, best)->0;
                other < mine || (other == mine && best <= j)
            },
    ensures
        best_name(default, names, usable, k),
    decreases names.len() - i,
{
    if i == names.len() {
        best
    } else {
        let s = name_score(default, names, usable, i);
        let mine = name_score(default, names, usable, best)->0;
        if s is Some && (s->0 > mine || (s->0 == mine && i < best)) {
            lemma_best_from(default, names, usable, i, i + 1)
        } else {
            lemma_best_from(default, names, usable, best, i + 1)
        }
    }
}

/// A Bluetooth headset is never chosen while any local microphone is usable.
pub proof fn law_no_bluetooth_beside_a_local_microphone(
    default: Seq<char>,
    names: Seq<Seq<char>>,
    macbook_mic_usable: bool,
    local: int,
)
    requires
        0 <= local < names.len(),
        local_input(names[local], macbook_mic_usable),
    ensures
        !bluetooth_name(chosen_name(default, names, macbook_mic_usable)),
{
    assert(!bluetooth_allowed(names, macbook_mic_usable));
    assert(name_score(default, names, macbook_mic_usable, local) is Some);
    let k = lemma_best_name_exists(default, names, macbook_mic_usable, local);
    let c = choose|i: int| best_name(default, names, macbook_mic_usable, i);
    assert(best_name(default, names, macbook_mic_usable, c));
}

/// A system default that is neither Bluetooth nor virtual and can be used stays the choice.
pub proof fn law_a_usable_default_is_kept(
    default: Seq<char>,
    names: Seq<Seq<char>>,
    macbook_mic_usable: bool,
)
    requires
        names.contains(default),
        local_input(default, macbook_mic_usable),
    ensures
        chosen_name(default, names, macbook_mic_usable) == default,
{
    let d = choose|i: int| 0 <= i < names.len() && names[i] == default;
    let own = name_score(default, names, macbook_mic_usable, d);
    assert(own is Some && own->0 >= 160);
    let k = lemma_best_name_exists(default, names, macbook_mic_usable, d);
    let c = choose|i: int| best_name(default, names, macbook_mic_usable, i);
    assert(best_name(default, names, macbook_mic_usable, c));
    assert(own is Some);
    assert(name_score(default, names, macbook_mic_usable, c)->0 >= 160);
}

/// Where no local microphone is usable, because there is none or the lid is closed, a Bluetooth
/// headset is used if there is one, unless the system default is a virtual device.
pub proof fn law_bluetooth_is_used_without_a_local_microphone(
    default: Seq<char>,
    names: Seq<Seq<char>>,
    macbook_mic_usable: bool,
    headset: int,
)
    requires
        0 <= headset < names.len(),
        bluetooth_name(names[headset]),
        bluetooth_allowed(names, macbook_mic_usable),
        !virtual_name(default),
    ensures
        names.contains(chosen_name(default, names, macbook_mic_usable)),
        bluetooth_name(chosen_name(default, names, macbook_mic_usable)),
{
    let own = name_score(default, names, macbook_mic_usable, headset);
    assert(own == Some(10i32));
    let k = lemma_best_name_exists(default, names, macbook_mic_usable, headset);
    let c = choose|i: int| best_name(default, names, macbook_mic_usable, i);
    assert(best_name(default, names, macbook_mic_usable, c));
    assert(name_score(default, names, macbook_mic_usable, c)->0 >= 10);
    assert(!local_input(names[c], macbook_mic_usable));
    if !bluetooth_name(names[c]) && macbook_name(names[c]) {
        assert(built_in_name(names[c]));
    }
}

/// The ranked devices hold no Bluetooth headset while any local microphone is usable.
pub proof fn law_ranking_holds_no_bluetooth_beside_a_local_microphone(
    default: Option<Seq<char>>,
    names: Seq<Option<String>>,
    macbook_mic_usable: bool,
    order: Seq<usize>,
    a: int,
)
    requires
        is_ranking(default, names, macbook_mic_usable, names.len() as int, order),
        has_local_device(names, macbook_mic_usable),
        0 <= a < order.len(),
    ensures
        names[order[a] as int] matches Some(name) && !bluetooth_name(name@),
{
    assert(device_score(default, names, macbook_mic_usable, order[a] as int) is Some);
}

/// A system default that is neither Bluetooth nor virtual and can be used is ranked first.
pub proof fn law_ranking_starts_with_a_usable_default(
    default: Seq<char>,
    names: Seq<Option<String>>,
    macbook_mic_usable: bool,
    order: Seq<usize>,
    d: int,
)
    requires
        is_ranking(Some(default), names, macbook_mic_usable, names.len() as int, order),
        local_input(default, macbook_mic_usable),
        0 <= d < names.len(),
        names[d] is Some && names[d]->0@ == default,
    ensures
        order.len() > 0,
        names[order[0] as int] is Some && names[order[0] as int]->0@ == default,
{
    let own = device_score(Some(default), names, macbook_mic_usable, d);
    assert(own is Some && own->0 >= 160);
    let a = choose|a: int| 0 <= a < order.len() && #[trigger] order[a] == d;
    assert(device_score(Some(default), names, macbook_mic_usable, order[0] as int) is Some);
    if a != 0 {
        assert(ranks_before(
            Some(default),
            names,
            macbook_mic_usable,
            order[0] as int,
            order[a] as int,
        ));
    }
}

/// Where no local microphone is usable, a Bluetooth headset is ranked first if there is one,
/// unless the system default is a virtual device.
pub proof fn law_ranking_starts_with_bluetooth_without_a_local_microphone(
    default: Option<Seq<char>>,
    names: Seq<Option<String>>,
    macbook_mic_usable: bool,
    order: Seq<usize>,
    headset: int,
)
    requires
        is_ranking(default, names, macbook_mic_usable, names.len() as int, order),
        !has_local_device(names, macbook_mic_usable),
        default is Some ==> !virtual_name(default->0),
        0 <= headset < names.len(),
        names[headset] is Some && bluetooth_name(names[headset]->0@),
    ensures
        order.len() > 0,
        names[order[0] as int] is Some && bluetooth_name(names[order[0] as int]->0@),
{
    let own = device_score(default, names, macbook_mic_usable, headset);
    assert(own == Some(10i32));
    let a = choose|a: int| 0 <= a < order.len() && #[trigger] order[a] == headset;
    let first = order[0] as int;
    assert(device_score(default, names, macbook_mic_usable, first) is Some);
    if a != 0 {
        assert(ranks_before(default, names, macbook_mic_usable, first, order[a] as int));
    }
    assert(device_score(default, names, macbook_mic_usable, first)->0 >= 10);
    assert(!local_input(names[first]->0@, macbook_mic_usable));
    if !bluetooth_name(names[first]->0@) && macbook_name(names[first]->0@) {
        assert(built_in_name(names[first]->0@));
    }
}

/// A Bluetooth headset is recognised by any of these words, wherever in its name they stand and
/// in whichever case, and nothing else is taken for one.
pub proof fn law_headsets_are_known_by_their_names(name: Seq<char>, a: Seq<char>, b: Seq<char>)
    ensures
        text::ascii_lower(name) == a + "airpods"@ + b ==> bluetooth_name(name),
        text::ascii_lower(name) == a + "hands-free"@ + b ==> bluetooth_name(name),
        text::ascii_lower(name) == a + "handsfree"@ + b ==> bluetooth_name(name),
        text::ascii_lower(name) == a + "bluetooth"@ + b ==> bluetooth_name(name),
        text::ascii_lower(name) == a + "hfp"@ + b ==> bluetooth_name(name),
        text::ascii_lower(name) == a + "a2dp"@ + b ==> bluetooth_name(name),
        text::ascii_lower(name) == a + "powerbeats"@ + b ==> bluetooth_name(name),
        text::ascii_lower(name) == a + "beats "@ + b ==> bluetooth_name(name),
        text::ascii_lower(name) == "beats"@ + b ==> bluetooth_name(name),
        bluetooth_name(name) ==> exists|x: Seq<char>, p: Seq<char>, y: Seq<char>|
            text::ascii_lower(name) == #[trigger] (x + p + y) && {
                ||| p == "airpods"@
                ||| p == "hands-free"@
                ||| p == "handsfree"@
                ||| p == "bluetooth"@
                ||| p == "hfp"@
                ||| p == "a2dp"@
                ||| p == "powerbeats"@
                ||| p == "beats "@
                ||| p == "beats"@ && x.len() == 0
            },
{
    let n = text::ascii_lower(name);
    text::law_a_text_contains_its_pieces(n, a, "airpods"@, b);
    text::law_a_text_contains_its_pieces(n, a, "hands-free"@, b);
    text::law_a_text_contains_its_pieces(n, a, "handsfree"@, b);
    text::law_a_text_contains_its_pieces(n, a, "bluetooth"@, b);
    text::law_a_text_contains_its_pieces(n, a, "hfp"@, b);
    text::law_a_text_contains_its_pieces(n, a, "a2dp"@, b);
    text::law_a_text_contains_its_pieces(n, a, "powerbeats"@, b);
    text::law_a_text_contains_its_pieces(n, a, "beats "@, b);
    text::law_a_text_contains_its_pieces(n, a, "beats"@, b);
    if text::starts_with(n, "beats"@) {
        let y = choose|y: Seq<char>| n == #[trigger] ("beats"@ + y);
        assert(n =~= Seq::<char>::empty() + "beats"@ + y);
    }
}

/// A built-in microphone is recognised by any of these words, wherever in its name they stand
/// and in whichever case, and nothing else is taken for one.
pub proof fn law_built_in_microphones_are_known_by_their_names(
    name: Seq<char>,
    a: Seq<char>,
    b: Seq<char>,
)
    ensures
        text::ascii_lower(name) == a + "macbook"@ + b ==> built_in_name(name),
        text::ascii_lower(name) == a + "imac"@ + b ==> built_in_name(name),
        text::ascii_lower(name) == a + "mac mini"@ + b ==> built_in_name(name),
        text::ascii_lower(name) == a + "mac studio"@ + b ==> built_in_name(name),
        text::ascii_lower(name) == a + "mac pro"@ + b ==> built_in_name(name),
        text::ascii_lower(name) == a + "built-in"@ + b ==> built_in_name(name),
        text::ascii_lower(name) == a + "built in"@ + b ==> built_in_name(name),
        text::ascii_lower(name) == a + "internal microphone"@ + b ==> built_in_name(name),
        built_in_name(name) ==> exists|x: Seq<char>, p: Seq<char>, y: Seq<char>|
            text::ascii_lower(name) == #[trigger] (x + p + y) && {
                ||| p == "macbook"@
                ||| p == "imac"@
                ||| p == "mac mini"@
                ||| p == "mac studio"@
                ||| p == "mac pro"@
                ||| p == "built-in"@
                ||| p == "built in"@
                ||| p == "internal microphone"@
            },
{
    let n = text::ascii_lower(name);
    text::law_a_text_contains_its_pieces(n, a, "macbook"@, b);
    text::law_a_text_contains_its_pieces(n, a, "imac"@, b);
    text::law_a_text_contains_its_pieces(n, a, "mac mini"@, b);
    text::law_a_text_contains_its_pieces(n, a, "mac studio"@, b);
    text::law_a_text_contains_its_pieces(n, a, "mac pro"@, b);
    text::law_a_text_contains_its_pieces(n, a, "built-in"@, b);
    text::law_a_text_contains_its_pieces(n, a, "built in"@, b);
    text::law_a_text_contains_its_pieces(n, a, "internal microphone"@, b);
}

/// A virtual input is recognised by any of these words, wherever in its name they stand and in
/// whichever case, and nothing else is taken for one.
pub proof fn law_virtual_inputs_are_known_by_their_names(
    name: Seq<char>,
    a: Seq<char>,
    b: Seq<char>,
)
    ensures
        text::ascii_lower(name) == a + "blackhole"@ + b ==> virtual_name(name),
        text::ascii_lower(name) == a + "loopback"@ + b ==> virtual_name(name),
        text::ascii_lower(name) == a + "soundflower"@ + b ==> virtual_name(name),
        text::ascii_lower(name) == a + "aggregate"@ + b ==> virtual_name(name),
        text::ascii_lower(name) == a + "multi-output"@ + b ==> virtual_name(name),
        text::ascii_lower(name) == a + "zoomaudio"@ + b ==> virtual_name(name),
        virtual_name(name) ==> exists|x: Seq<char>, p: Seq<char>, y: Seq<char>|
            text::ascii_lower(name) == #[trigger] (x + p + y) && {
                ||| p == "blackhole"@
                ||| p == "loopback"@
                ||| p == "soundflower"@
                ||| p == "aggregate"@
                ||| p == "multi-output"@
                ||| p == "zoomaudio"@
            },
{
    let n = text::ascii_lower(name);
    text::law_a_text_contains_its_pieces(n, a, "blackhole"@, b);
    text::law_a_text_contains_its_pieces(n, a, "loopback"@, b);
    text::law_a_text_contains_its_pieces(n, a, "soundflower"@, b);
    text::law_a_text_contains_its_pieces(n, a, "aggregate"@, b);
    text::law_a_text_contains_its_pieces(n, a, "multi-output"@, b);
    text::law_a_text_contains_its_pieces(n, a, "zoomaudio"@, b);
}

/// With the lid closed no MacBook microphone counts as local, whatever its name says beside
/// "macbook": it is the last resort, behind a headset. With the lid open it is a built-in
/// microphone like any other.
pub proof fn law_a_closed_lid_rules_out_every_macbook_microphone(
    name: Seq<char>,
    a: Seq<char>,
    b: Seq<char>,
    is_default: bool,
    allow_bluetooth: bool,
    headset: Seq<char>,
    headset_is_default: bool,
)
    requires
        text::ascii_lower(name) == a + "macbook"@ + b,
        !bluetooth_name(name),
        !virtual_name(name),
        bluetooth_name(headset),
    ensures
        !local_input(name, false),
        local_input(name, true),
        score(name, is_default, false, allow_bluetooth) == Some(5i32),
        score(name, is_default, true, allow_bluetooth) == Some(
            if is_default {
                200i32
            } else {
                100i32
            },
        ),
        score(headset, headset_is_default, false, true) is Some,
        score(headset, headset_is_default, false, true)->0 > score(
            name,
            is_default,
            false,
            true,
        )->0,
{
    law_built_in_microphones_are_known_by_their_names(name, a, b);
    text::law_a_text_contains_its_pieces(text::ascii_lower(name), a, "macbook"@, b);
}

/// The lid matters to nothing but MacBook microphones.
pub proof fn law_the_lid_matters_only_to_macbook_microphones(
    name: Seq<char>,
    is_default: bool,
    allow: bool,
)
    requires
        !(exists|a: Seq<char>, b: Seq<char>|
            text::ascii_lower(name) == #[trigger] (a + "macbook"@ + b)),
    ensures
        local_input(name, false) == local_input(name, true),
        score(name, is_default, false, allow) == score(name, is_default, true, allow),
{
    let n = text::ascii_lower(name);
    text::law_a_text_contains_its_pieces(n, n, "macbook"@, n);
}

/// How devices are preferred, best first: a local default, a built-in microphone, any other
/// local one, a virtual default, a headset, the microphone of a closed MacBook. A headset is
/// used only where it is allowed, a virtual input only as the default.
pub proof fn law_devices_are_preferred_by_kind(
    name: Seq<char>,
    is_default: bool,
    usable: bool,
    allow: bool,
)
    ensures
        ({
            let s = score(name, is_default, usable, allow);
            let closed = macbook_name(name) && !usable;
            &&& bluetooth_name(name) ==> s == if allow {
                Some(10i32)
            } else {
                None
            }
            &&& (!bluetooth_name(name) && virtual_name(name) && !is_default) ==> s is None
            &&& (!bluetooth_name(name) && virtual_name(name) && is_default && !built_in_name(name))
                ==> s == Some(20i32)
            &&& (!bluetooth_name(name) && virtual_name(name) && is_default && built_in_name(name))
                ==> s == Some(
                if closed {
                    5i32
                } else {
                    200i32
                },
            )
            &&& (!bluetooth_name(name) && !virtual_name(name) && !closed) ==> s == Some(
                (if built_in_name(name) {
                    100i32
                } else {
                    60i32
                } + if is_default {
                    100i32
                } else {
                    0i32
                }) as i32,
            )
            &&& (!bluetooth_name(name) && !virtual_name(name) && closed) ==> s == Some(5i32)
            &&& local_input(name, usable) == (!bluetooth_name(name) && !virtual_name(name)
                && !closed)
        }),
{
    if macbook_name(name) {
        assert(built_in_name(name));
    }
}

/// The choice is the first of the best-scored devices, where a headset is allowed only if no
/// device is a usable local microphone; the default where no device has a score.
pub proof fn law_the_first_of_the_best_devices_is_chosen(
    default: Seq<char>,
    names: Seq<Seq<char>>,
    usable: bool,
    allow: bool,
    i: int,
)
    requires
        allow == !(exists|k: int| 0 <= k < names.len() && local_input(#[trigger] names[k], usable)),
        0 <= i < names.len(),
        score(names[i], names[i] == default, usable, allow) is Some,
    ensures
        exists|c: int|
            0 <= c < names.len() && chosen_name(default, names, usable) == #[trigger] names[c] && {
                let best = score(names[c], names[c] == default, usable, allow);
                let mine = score(names[i], names[i] == default, usable, allow);
                best is Some && (mine->0 < best->0 || (mine->0 == best->0 && c <= i))
            },
{
    assert(bluetooth_allowed(names, usable) == allow);
    assert(name_score(default, names, usable, i) is Some);
    let k = lemma_best_name_exists(default, names, usable, i);
    let c = choose|c: int| best_name(default, names, usable, c);
    assert(best_name(default, names, usable, c));
    assert(chosen_name(default, names, usable) == names[c]);
}

/// Where no device has a score the default is chosen.
pub proof fn law_without_a_usable_device_the_default_is_chosen(
    default: Seq<char>,
    names: Seq<Seq<char>>,
    usable: bool,
    allow: bool,
)
    requires
        allow == !(exists|k: int| 0 <= k < names.len() && local_input(#[trigger] names[k], usable)),
        forall|i: int|
            0 <= i < names.len() ==> score(#[trigger] names[i], names[i] == default, usable, allow)
                is None,
    ensures
        chosen_name(default, names, usable) == default,
{
    assert(bluetooth_allowed(names, usable) == allow);
    if exists|i: int| best_name(default, names, usable, i) {
        let c = choose|c: int| best_name(default, names, usable, c);
        assert(score(names[c], names[c] == default, usable, allow) is None);
    }
}

/// The ranking holds exactly the devices that have a score, each once, best first, and equals in
/// the order in which they were listed. A headset has a score only if no device is a usable
/// local microphone.
pub proof fn law_the_ranking_is_complete_and_in_order(
    default: Option<Seq<char>>,
    names: Seq<Option<String>>,
    usable: bool,
    allow: bool,
    order: Seq<usize>,
    a: int,
    b: int,
    i: int,
)
    requires
        is_ranking(default, names, usable, names.len() as int, order),
        allow == !(exists|k: int|
            0 <= k < names.len() && (#[trigger] names[k]) is Some && local_input(
                names[k]->0@,
                usable,
            )),
        0 <= a < b < order.len(),
        0 <= i < names.len(),
    ensures
        ({
            let mark = |k: int|
                match names[k] {
                    Some(name) => score(name@, default == Some(name@), usable, allow),
                    None => None::<i32>,
                };
            let x = order[a] as int;
            let y = order[b] as int;
            &&& 0 <= x < names.len() && 0 <= y < names.len() && x != y
            &&& mark(x) is Some && mark(y) is Some
            &&& mark(x)->0 > mark(y)->0 || (mark(x)->0 == mark(y)->0 && x < y)
            &&& mark(i) is Some ==> exists|c: int| 0 <= c < order.len() && #[trigger] order[c] == i
        }),
{
    assert(has_local_device(names, usable) == !allow);
    assert(ranks_before(default, names, usable, order[a] as int, order[b] as int));
    assert(device_score(default, names, usable, order[a] as int) is Some);
    assert(device_score(default, names, usable, order[b] as int) is Some);
    if device_score(default, names, usable, i) is Some {
        assert(exists|c: int| 0 <= c < order.len() && #[trigger] order[c] == i);
    }
}

/// Every device that has a score is in the ranking, and nothing else, however many there are.
pub proof fn law_exactly_the_usable_devices_are_ranked(
    default: Option<Seq<char>>,
    names: Seq<Option<String>>,
    usable: bool,
    allow: bool,
    order: Seq<usize>,
    i: int,
)
    requires
        is_ranking(default, names, usable, names.len() as int, order),
        allow == !(exists|k: int|
            0 <= k < names.len() && (#[trigger] names[k]) is Some && local_input(
                names[k]->0@,
                usable,
            )),
        0 <= i < names.len(),
    ensures
        (exists|c: int| 0 <= c < order.len() && #[trigger] order[c] == i) <==> (names[i] is Some
            && score(names[i]->0@, default == Some(names[i]->0@), usable, allow) is Some),
{
    assert(has_local_device(names, usable) == !allow);
    if device_score(default, names, usable, i) is Some {
        assert(exists|c: int| 0 <= c < order.len() && #[trigger] order[c] == i);
    }
    if exists|c: int| 0 <= c < order.len() && #[trigger] order[c] == i {
        let c = choose|c: int| 0 <= c < order.len() && #[trigger] order[c] == i;
        assert(device_score(default, names, usable, order[c] as int) is Some);
    }
}

} // verus!
