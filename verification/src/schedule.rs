//! The schedule generator: it partitions the 24-hour cycle into one slot per
//! wallpaper and renders each slot boundary as a local `HH:MM` string. Day
//! images share the span from sunrise to sunset evenly, night images the rest
//! of the cycle; in uniform mode all images share the whole cycle.

use crate::clock::{format_hm, hm_chars, lemma_format_hm_valid, render_local_hm, valid_hm};
use crate::text::{contains_seq, contains_substr, sort_strings, sorted_strings, views_of};
use vstd::prelude::*;

verus! {

/// How a schedule request can fail.
#[derive(Copy, Clone, Debug, PartialEq, Eq, Structural)]
pub enum FlowyError {
    /// The wallpaper folder yielded no day images or no night images.
    EmptyWallSet,
    /// The coordinates do not describe a place with an ordinary day: latitude
    /// or longitude is out of range, or sunset does not follow sunrise within
    /// the same cycle.
    InvalidCoordinate,
    /// A solar event does not occur at this latitude on this date.
    EventDoesNotOccur,
    /// A stored wall-clock string does not have the `HH:MM` shape.
    InvalidTimeString,
    /// An external collaborator failed: the session's desktop could not be
    /// determined or driven. Produced only outside the library.
    BackendFailure,
}

impl FlowyError {
    /// A short description of the failure.
    pub fn message(&self) -> (r: &'static str)
    {
        match self {
            FlowyError::EmptyWallSet => "no day or night wallpapers found",
            FlowyError::InvalidCoordinate => "latitude or longitude out of range",
            FlowyError::EventDoesNotOccur => "solar event does not occur here today",
            FlowyError::InvalidTimeString => "stored time is not of the form HH:MM",
            FlowyError::BackendFailure => "desktop back-end could not be driven",
        }
    }
}

/// The persisted schedule: a wall-clock string for each image path, index by
/// index.
#[derive(Debug)]
pub struct Config {
    /// Local `HH:MM` strings, one per wallpaper.
    pub times: Vec<String>,
    /// Image paths, in display order: day images first, then night images.
    pub walls: Vec<String>,
}

/// Seconds of daylight: the span from sunrise to sunset.
pub open spec fn day_length(sunrise: int, sunset: int) -> int {
    sunset - sunrise
}

/// Seconds of night: the rest of the 24-hour cycle.
pub open spec fn night_length(sunrise: int, sunset: int) -> int {
    86400 - day_length(sunrise, sunset)
}

/// Day and night partition the 24-hour cycle: their lengths always sum to
/// exactly 86 400 seconds.
pub proof fn lemma_day_night_partition(sunrise: int, sunset: int)
    ensures
        day_length(sunrise, sunset) + night_length(sunrise, sunset) == 86400,
{
}

/// The largest epoch magnitude the schedule generator accepts; far beyond any
/// calendar date the daemon can encounter, but small enough that every slot
/// boundary stays within the range the wall-clock renderer covers.
pub const EPOCH_LIMIT: i64 = 999_999_000_000;

/// The Unix epoch second at which slot `i` of the schedule begins: the day
/// span is divided evenly among the day images starting at sunrise, the night
/// span among the night images starting at sunset.
pub open spec fn spec_slot_epoch(
    sunrise: int,
    sunset: int,
    n_day: int,
    n_night: int,
    i: int,
) -> int {
    if i < n_day {
        sunrise + (day_length(sunrise, sunset) / n_day) * i
    } else {
        sunset + (night_length(sunrise, sunset) / n_night) * (i - n_day)
    }
}

/// The product of a nonnegative Euclidean quotient with a factor no larger
/// than the divisor stays within the dividend.
proof fn lemma_div_mul_bound(total: int, n: int, i: int)
    requires
        0 < n,
        0 <= total,
        0 <= i <= n,
    ensures
        0 <= (total / n) * i,
        (total / n) * i <= total,
        (0 < total && i < n) ==> (total / n) * i < total,
{
    vstd::arithmetic::div_mod::lemma_fundamental_div_mod(total, n);
    let q = total / n;
    let rem = total % n;
    assert(0 <= q * i && q * i <= total && ((0 < total && i < n) ==> q * i < total))
        by (nonlinear_arith)
        requires
            0 < n,
            0 <= i <= n,
            0 <= total,
            total == n * q + rem,
            0 <= rem < n,
    ;
}

/// The slot boundaries for `n_day` day images and `n_night` night images, as
/// Unix epoch seconds.
pub fn slot_epochs(sunrise: i64, sunset: i64, n_day: usize, n_night: usize) -> (r: Vec<i64>)
    requires
        n_day > 0,
        n_night > 0,
        0 < sunset - sunrise < 86400,
        -EPOCH_LIMIT <= sunrise <= EPOCH_LIMIT,
        -EPOCH_LIMIT <= sunset <= EPOCH_LIMIT,
    ensures
        r@.len() == n_day + n_night,
        forall|i: int|
            0 <= i < n_day + n_night ==> r@[i] == spec_slot_epoch(
                sunrise as int,
                sunset as int,
                n_day as int,
                n_night as int,
                i,
            ),
        forall|i: int|
            0 <= i < n_day + n_night ==> -1_000_000_000_000 < #[trigger] r@[i]
                < 1_000_000_000_000,
{
    let day_len: u64 = (sunset - sunrise) as u64;
    let night_len: u64 = 86400 - day_len;
    let day_div: u64 = day_len / (n_day as u64);
    let night_div: u64 = night_len / (n_night as u64);
    let mut r: Vec<i64> = Vec::new();
    let mut i: usize = 0;
    while i < n_day
        invariant
            i <= n_day,
            0 < n_day,
            day_len == sunset - sunrise,
            0 < day_len < 86400,
            -EPOCH_LIMIT <= sunrise <= EPOCH_LIMIT,
            day_div == day_len as int / n_day as int,
            r@.len() == i,
            forall|k: int|
                0 <= k < i ==> r@[k] == sunrise + (day_len as int / n_day as int) * k,
        decreases n_day - i,
    {
        proof {
            lemma_div_mul_bound(day_len as int, n_day as int, i as int);
        }
        r.push(sunrise + (day_div * (i as u64)) as i64);
        i = i + 1;
    }
    let mut j: usize = 0;
    while j < n_night
        invariant
            j <= n_night,
            0 < n_night,
            0 < n_day,
            day_len == sunset - sunrise,
            0 < day_len < 86400,
            night_len == 86400 - day_len,
            -EPOCH_LIMIT <= sunrise <= EPOCH_LIMIT,
            -EPOCH_LIMIT <= sunset <= EPOCH_LIMIT,
            night_div == night_len as int / n_night as int,
            r@.len() == n_day + j,
            forall|k: int|
                0 <= k < n_day ==> r@[k] == sunrise + ((sunset - sunrise) / n_day as int) * k,
            forall|k: int|
                n_day <= k < n_day + j ==> r@[k] == sunset + (night_len as int / n_night as int)
                    * (k - n_day),
        decreases n_night - j,
    {
        proof {
            lemma_div_mul_bound(night_len as int, n_night as int, j as int);
        }
        r.push(sunset + (night_div * (j as u64)) as i64);
        j = j + 1;
    }
    proof {
        assert forall|i2: int| 0 <= i2 < n_day + n_night implies {
            &&& r@[i2] == spec_slot_epoch(
                sunrise as int,
                sunset as int,
                n_day as int,
                n_night as int,
                i2,
            )
            &&& -1_000_000_000_000 < r@[i2] < 1_000_000_000_000
        } by {
            if i2 < n_day {
                lemma_div_mul_bound(day_len as int, n_day as int, i2);
            } else {
                lemma_div_mul_bound(night_len as int, n_night as int, i2 - n_day);
            }
        }
    }
    r
}

/// Renders each epoch as a local `HH:MM` string. The epochs of a generated
/// schedule always lie in the range the renderer covers, so for them the
/// result is never `None`.
pub fn render_times(epochs: &Vec<i64>) -> (r: Option<Vec<String>>)
    ensures
        (forall|i: int|
            0 <= i < epochs@.len() ==> -1_000_000_000_000 <= #[trigger] epochs@[i]
                <= 1_000_000_000_000) ==> r is Some,
        r matches Some(ts) ==> ts@.len() == epochs@.len() && forall|i: int|
            0 <= i < ts@.len() ==> valid_hm(#[trigger] ts@[i]@),
{
    let mut ts: Vec<String> = Vec::new();
    let mut i: usize = 0;
    while i < epochs.len()
        invariant
            i <= epochs@.len(),
            ts@.len() == i,
            forall|k: int| 0 <= k < i ==> valid_hm(#[trigger] ts@[k]@),
        decreases epochs@.len() - i,
    {
        match render_local_hm(epochs[i]) {
            Some(s) => {
                ts.push(s);
            },
            None => {
                return None;
            },
        }
        i = i + 1;
    }
    Some(ts)
}

/// Builds the solar schedule: day images divide the sunrise-to-sunset span
/// evenly, night images divide the rest of the cycle starting at sunset, and
/// each slot boundary is rendered as a local `HH:MM` string against the image
/// paths in day-then-night order.
///
/// Fails with `EmptyWallSet` exactly when either image list is empty, and
/// with `InvalidCoordinate` exactly when sunset does not follow sunrise
/// within one cycle.
pub fn solar_schedule(
    sunrise: i64,
    sunset: i64,
    day_walls: Vec<String>,
    night_walls: Vec<String>,
) -> (r: Result<Config, FlowyError>)
    requires
        -EPOCH_LIMIT <= sunrise <= EPOCH_LIMIT,
        -EPOCH_LIMIT <= sunset <= EPOCH_LIMIT,
    ensures
        r matches Err(e) ==> (e == FlowyError::EmptyWallSet || e == FlowyError::InvalidCoordinate),
        (r == Err::<Config, FlowyError>(FlowyError::EmptyWallSet)) <==> (day_walls@.len() == 0
            || night_walls@.len() == 0),
        (r == Err::<Config, FlowyError>(FlowyError::InvalidCoordinate)) <==> (day_walls@.len() > 0
            && night_walls@.len() > 0 && !(0 < sunset - sunrise < 86400)),
        r matches Ok(c) ==> {
            &&& c.walls@ == day_walls@ + night_walls@
            &&& c.times@.len() == day_walls@.len() + night_walls@.len()
            &&& forall|i: int| 0 <= i < c.times@.len() ==> valid_hm(#[trigger] c.times@[i]@)
        },
{
    if day_walls.len() == 0 || night_walls.len() == 0 {
        return Err(FlowyError::EmptyWallSet);
    }
    let day_len = sunset - sunrise;
    if day_len <= 0 || day_len >= 86400 {
        return Err(FlowyError::InvalidCoordinate);
    }
    let epochs = slot_epochs(sunrise, sunset, day_walls.len(), night_walls.len());
    let times = match render_times(&epochs) {
        Some(ts) => ts,
        None => {
            proof {
                assert(false);
            }
            vstd::pervasive::unreached()
        },
    };
    let mut walls = day_walls;
    let mut rest = night_walls;
    walls.append(&mut rest);
    Ok(Config { times, walls })
}

/// The number of minutes into the day at which uniform slot `i` of `n`
/// begins: the cycle is divided into `n` equal spans starting at midnight.
pub open spec fn uniform_slot_chars(n: int, i: int) -> Seq<char> {
    let offset = (86400int / n) * i;
    hm_chars(offset / 3600, (offset / 60) % 60)
}

/// Builds the uniform schedule: the 24-hour cycle is divided evenly among all
/// images starting at midnight, each boundary rendered as `HH:MM`. Fails with
/// `EmptyWallSet` exactly when the image list is empty.
pub fn uniform_schedule(walls: Vec<String>) -> (r: Result<Config, FlowyError>)
    ensures
        r is Err <==> walls@.len() == 0,
        r matches Err(e) ==> e == FlowyError::EmptyWallSet,
        r matches Ok(c) ==> {
            &&& c.walls@ == walls@
            &&& c.times@.len() == walls@.len()
            &&& forall|i: int|
                0 <= i < c.times@.len() ==> #[trigger] c.times@[i]@ == uniform_slot_chars(
                    walls@.len() as int,
                    i,
                )
            &&& forall|i: int| 0 <= i < c.times@.len() ==> valid_hm(#[trigger] c.times@[i]@)
        },
{
    let n = walls.len();
    if n == 0 {
        return Err(FlowyError::EmptyWallSet);
    }
    let div = 86400 / n;
    proof {
        vstd::arithmetic::div_mod::lemma_fundamental_div_mod(86400int, n as int);
        assert(div * n as int <= 86400) by (nonlinear_arith)
            requires
                86400int == (n as int) * (86400int / n as int) + (86400int % n as int),
                div == 86400int / n as int,
                0 <= 86400int % n as int,
        ;
    }
    let mut times: Vec<String> = Vec::new();
    let mut i: usize = 0;
    while i < n
        invariant
            i <= n,
            0 < n,
            div == 86400int / n as int,
            div * n as int <= 86400,
            0 <= div,
            times@.len() == i,
            forall|k: int|
                0 <= k < i ==> #[trigger] times@[k]@ == uniform_slot_chars(n as int, k),
            forall|k: int| 0 <= k < i ==> valid_hm(#[trigger] times@[k]@),
        decreases n - i,
    {
        proof {
            vstd::arithmetic::mul::lemma_mul_inequality(i as int, n as int, div as int);
            assert(div * i as int == i as int * div) by (nonlinear_arith);
            assert(0 <= div * i as int) by (nonlinear_arith)
                requires
                    0 <= div,
                    0 <= i,
            ;
            if div > 0 {
                vstd::arithmetic::mul::lemma_mul_inequality(
                    i as int,
                    n as int - 1,
                    div as int,
                );
                assert(div * (n as int - 1) == div * n as int - div) by (nonlinear_arith);
            } else {
                assert(div * i as int == 0) by (nonlinear_arith)
                    requires
                        div == 0,
                ;
            }
        }
        let offset = div * i;
        let h = offset / 3600;
        let m = (offset / 60) % 60;
        let s = format_hm(h as u32, m as u32);
        proof {
            lemma_format_hm_valid(h as int, m as int);
        }
        times.push(s);
        i = i + 1;
    }
    Ok(Config { times, walls })
}

/// The file paths whose characters contain the filter as a substring.
pub open spec fn kept_walls(files: Seq<Seq<char>>, filt: Seq<char>) -> Seq<Seq<char>> {
    files.filter(|f: Seq<char>| contains_seq(f, filt))
}

/// Each path with `file://` put in front.
pub open spec fn with_uri_prefix(files: Seq<Seq<char>>) -> Seq<Seq<char>> {
    files.map_values(|f: Seq<char>| "file://"@ + f)
}

/// Selects from a folder listing the paths that contain the filter substring,
/// optionally turns each into a `file://` URI, and sorts them; the sorted
/// order is the display order of the wallpapers.
pub fn filter_walls(files: &Vec<String>, filt: &str, uri_prefix: bool) -> (r: Vec<String>)
    ensures
        sorted_strings(r@),
        views_of(r@).to_multiset() == (if uri_prefix {
            with_uri_prefix(kept_walls(views_of(files@), filt@))
        } else {
            kept_walls(views_of(files@), filt@)
        }).to_multiset(),
        forall|i: int| 0 <= i < r@.len() ==> contains_seq(#[trigger] r@[i]@, filt@),
        filt@.len() > 0 ==> forall|i: int| 0 <= i < r@.len() ==> (#[trigger] r@[i]@).len() > 0,
{
    let mut kept: Vec<String> = Vec::new();
    proof {
        assert(views_of(files@).take(0) =~= Seq::<Seq<char>>::empty());
        reveal(Seq::filter);
        assert(views_of(kept@) =~= kept_walls(views_of(files@).take(0), filt@));
        assert(views_of(kept@) =~= with_uri_prefix(kept_walls(views_of(files@).take(0), filt@)));
    }
    let mut i: usize = 0;
    while i < files.len()
        invariant
            i <= files@.len(),
            views_of(kept@) == (if uri_prefix {
                with_uri_prefix(kept_walls(views_of(files@).take(i as int), filt@))
            } else {
                kept_walls(views_of(files@).take(i as int), filt@)
            }),
        decreases files@.len() - i,
    {
        let ghost pre = views_of(files@).take(i as int);
        let ghost pred = |f: Seq<char>| contains_seq(f, filt@);
        proof {
            assert(views_of(files@).take(i + 1) =~= pre.push(files@[i as int]@));
            reveal(Seq::filter);
            assert(pre.push(files@[i as int]@).drop_last() =~= pre);
        }
        if contains_substr(&files[i], filt) {
            if uri_prefix {
                let pref: String = String::from_str("file://");
                let full = pref.concat(files[i].as_str());
                kept.push(full);
            } else {
                kept.push(files[i].clone());
            }
            proof {
                assert(kept_walls(pre.push(files@[i as int]@), filt@) =~= kept_walls(pre, filt@)
                    .push(files@[i as int]@));
                if uri_prefix {
                    assert(with_uri_prefix(kept_walls(pre, filt@).push(files@[i as int]@))
                        =~= with_uri_prefix(kept_walls(pre, filt@)).push(
                        "file://"@ + files@[i as int]@,
                    ));
                    assert(views_of(kept@) =~= with_uri_prefix(kept_walls(pre, filt@)).push(
                        "file://"@ + files@[i as int]@,
                    ));
                } else {
                    assert(views_of(kept@) =~= kept_walls(pre, filt@).push(files@[i as int]@));
                }
            }
        } else {
            proof {
                assert(kept_walls(pre.push(files@[i as int]@), filt@) =~= kept_walls(
                    pre,
                    filt@,
                ));
                if uri_prefix {
                } else {
                }
            }
        }
        i = i + 1;
    }
    proof {
        assert(views_of(files@).take(files@.len() as int) =~= views_of(files@));
    }
    let r = sort_strings(&kept);
    proof {
        let kw = kept_walls(views_of(files@), filt@);
        let target = if uri_prefix {
            with_uri_prefix(kw)
        } else {
            kw
        };
        let pred = |f: Seq<char>| contains_seq(f, filt@);
        assert forall|i: int| 0 <= i < r@.len() implies contains_seq(#[trigger] r@[i]@, filt@) by {
            let x = r@[i]@;
            assert(views_of(r@)[i] == x);
            assert(views_of(r@).contains(x));
            vstd::seq_lib::to_multiset_contains(views_of(r@), x);
            vstd::seq_lib::to_multiset_contains(target, x);
            assert(target.contains(x));
            let j = choose|j: int| 0 <= j < target.len() && target[j] == x;
            if uri_prefix {
                assert(x == "file://"@ + kw[j]);
                views_of(files@).lemma_filter_pred(pred, j);
                lemma_contains_append("file://"@, kw[j], filt@);
            } else {
                views_of(files@).lemma_filter_pred(pred, j);
            }
        }
    }
    r
}

/// A substring of the second part of a concatenation is a substring of the
/// whole.
proof fn lemma_contains_append(a: Seq<char>, b: Seq<char>, n: Seq<char>)
    requires
        contains_seq(b, n),
    ensures
        contains_seq(a + b, n),
{
    let i = choose|i: int| 0 <= i && i + n.len() <= b.len() && #[trigger] b.subrange(
        i,
        i + n.len(),
    ) == n;
    assert((a + b).subrange(a.len() + i, a.len() + i + n.len()) =~= b.subrange(i, i + n.len()));
}

/// The path of the schedule file inside a configuration directory.
pub fn get_config_path(config_dir: &str) -> (r: String)
    ensures
        r@ == config_dir@ + "/config.toml"@,
{
    let mut s = config_dir.to_owned();
    s.append("/config.toml");
    s
}

} // verus!
