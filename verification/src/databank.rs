use crate::totals::{batting_in_years, lemma_chosen_again, pitching_in_years};
use vstd::hash_map::StringHashMap;
use vstd::prelude::*;

verus! {

/// One row of a batting table as it is read: a stint of one player with one team in one year.
/// Statistics that the source does not record for the year are `None`.
pub struct RawBattingSeason {
    pub playerid: String,
    pub yearid: u16,
    pub g: u8,
    pub ab: u16,
    pub r: u8,
    pub h: u16,
    pub double: u8,
    pub triple: u8,
    pub hr: u8,
    pub rbi: Option<u8>,
    pub sb: Option<u8>,
    pub cs: Option<u8>,
    pub bb: u16,
    pub so: Option<u16>,
    pub ibb: Option<u8>,
    pub hbp: Option<u8>,
    pub sh: Option<u8>,
    pub sf: Option<u8>,
    pub gidp: Option<u8>,
}

/// A batting stint with every statistic present and the plate appearances worked out.
#[derive(Debug)]
pub struct BattingSeason {
    pub playerid: String,
    pub yearid: u16,
    pub g: u8,
    pub pa: u16,
    pub ab: u16,
    pub r: u8,
    pub h: u16,
    pub double: u8,
    pub triple: u8,
    pub hr: u8,
    pub rbi: u8,
    pub sb: u8,
    pub cs: u8,
    pub bb: u16,
    pub so: u16,
    pub ibb: u8,
    pub hbp: u8,
    pub sh: u8,
    pub sf: u8,
    pub gidp: u8,
}

/// One row of a pitching table as it is read.
pub struct RawPitchingSeason {
    pub playerid: String,
    pub yearid: u16,
    pub w: u8,
    pub l: u8,
    pub sv: u8,
    pub ipouts: u16,
    pub h: u16,
    pub r: u16,
    pub er: u16,
    pub hr: u8,
    pub bb: u16,
    pub so: u16,
    pub ibb: Option<u8>,
    pub wp: Option<u8>,
    pub hbp: Option<u8>,
    pub bk: u8,
}

/// A pitching stint with every statistic present. Innings are kept as outs recorded.
#[derive(Debug)]
pub struct PitchingSeason {
    pub playerid: String,
    pub yearid: u16,
    pub ipouts: u16,
    pub w: u8,
    pub l: u8,
    pub sv: u8,
    pub h: u16,
    pub r: u16,
    pub er: u16,
    pub hr: u8,
    pub so: u16,
    pub bb: u16,
    pub ibb: u8,
    pub hbp: u8,
    pub wp: u8,
    pub bk: u8,
}

/// Batting statistics as mathematical integers: what a season or a sum of seasons counts.
pub struct BattingCounts {
    pub g: int,
    pub pa: int,
    pub ab: int,
    pub r: int,
    pub h: int,
    pub double: int,
    pub triple: int,
    pub hr: int,
    pub rbi: int,
    pub sb: int,
    pub cs: int,
    pub bb: int,
    pub so: int,
    pub ibb: int,
    pub hbp: int,
    pub sh: int,
    pub sf: int,
    pub gidp: int,
}

/// Pitching statistics as mathematical integers.
pub struct PitchingCounts {
    pub ipouts: int,
    pub w: int,
    pub l: int,
    pub sv: int,
    pub h: int,
    pub r: int,
    pub er: int,
    pub hr: int,
    pub so: int,
    pub bb: int,
    pub ibb: int,
    pub hbp: int,
    pub wp: int,
    pub bk: int,
}

impl BattingCounts {
    pub open spec fn zero() -> BattingCounts {
        BattingCounts {
            g: 0,
            pa: 0,
            ab: 0,
            r: 0,
            h: 0,
            double: 0,
            triple: 0,
            hr: 0,
            rbi: 0,
            sb: 0,
            cs: 0,
            bb: 0,
            so: 0,
            ibb: 0,
            hbp: 0,
            sh: 0,
            sf: 0,
            gidp: 0,
        }
    }

    /// The sum, statistic by statistic.
    pub open spec fn plus(self, other: BattingCounts) -> BattingCounts {
        BattingCounts {
            g: self.g + other.g,
            pa: self.pa + other.pa,
            ab: self.ab + other.ab,
            r: self.r + other.r,
            h: self.h + other.h,
            double: self.double + other.double,
            triple: self.triple + other.triple,
            hr: self.hr + other.hr,
            rbi: self.rbi + other.rbi,
            sb: self.sb + other.sb,
            cs: self.cs + other.cs,
            bb: self.bb + other.bb,
            so: self.so + other.so,
            ibb: self.ibb + other.ibb,
            hbp: self.hbp + other.hbp,
            sh: self.sh + other.sh,
            sf: self.sf + other.sf,
            gidp: self.gidp + other.gidp,
        }
    }

    /// No statistic is negative.
    pub open spec fn non_negative(self) -> bool {
        &&& 0 <= self.g
        &&& 0 <= self.pa
        &&& 0 <= self.ab
        &&& 0 <= self.r
        &&& 0 <= self.h
        &&& 0 <= self.double
        &&& 0 <= self.triple
        &&& 0 <= self.hr
        &&& 0 <= self.rbi
        &&& 0 <= self.sb
        &&& 0 <= self.cs
        &&& 0 <= self.bb
        &&& 0 <= self.so
        &&& 0 <= self.ibb
        &&& 0 <= self.hbp
        &&& 0 <= self.sh
        &&& 0 <= self.sf
        &&& 0 <= self.gidp
    }

    /// Every statistic is at most that of `other`.
    pub open spec fn at_most(self, other: BattingCounts) -> bool {
        &&& self.g <= other.g
        &&& self.pa <= other.pa
        &&& self.ab <= other.ab
        &&& self.r <= other.r
        &&& self.h <= other.h
        &&& self.double <= other.double
        &&& self.triple <= other.triple
        &&& self.hr <= other.hr
        &&& self.rbi <= other.rbi
        &&& self.sb <= other.sb
        &&& self.cs <= other.cs
        &&& self.bb <= other.bb
        &&& self.so <= other.so
        &&& self.ibb <= other.ibb
        &&& self.hbp <= other.hbp
        &&& self.sh <= other.sh
        &&& self.sf <= other.sf
        &&& self.gidp <= other.gidp
    }

    /// Every statistic can be held by a summary's 32-bit counter.
    pub open spec fn fits(self) -> bool {
        &&& self.g <= u32::MAX
        &&& self.pa <= u32::MAX
        &&& self.ab <= u32::MAX
        &&& self.r <= u32::MAX
        &&& self.h <= u32::MAX
        &&& self.double <= u32::MAX
        &&& self.triple <= u32::MAX
        &&& self.hr <= u32::MAX
        &&& self.rbi <= u32::MAX
        &&& self.sb <= u32::MAX
        &&& self.cs <= u32::MAX
        &&& self.bb <= u32::MAX
        &&& self.so <= u32::MAX
        &&& self.ibb <= u32::MAX
        &&& self.hbp <= u32::MAX
        &&& self.sh <= u32::MAX
        &&& self.sf <= u32::MAX
        &&& self.gidp <= u32::MAX
    }
}

impl PitchingCounts {
    pub open spec fn zero() -> PitchingCounts {
        PitchingCounts {
            ipouts: 0,
            w: 0,
            l: 0,
            sv: 0,
            h: 0,
            r: 0,
            er: 0,
            hr: 0,
            so: 0,
            bb: 0,
            ibb: 0,
            hbp: 0,
            wp: 0,
            bk: 0,
        }
    }

    /// The sum, statistic by statistic.
    pub open spec fn plus(self, other: PitchingCounts) -> PitchingCounts {
        PitchingCounts {
            ipouts: self.ipouts + other.ipouts,
            w: self.w + other.w,
            l: self.l + other.l,
            sv: self.sv + other.sv,
            h: self.h + other.h,
            r: self.r + other.r,
            er: self.er + other.er,
            hr: self.hr + other.hr,
            so: self.so + other.so,
            bb: self.bb + other.bb,
            ibb: self.ibb + other.ibb,
            hbp: self.hbp + other.hbp,
            wp: self.wp + other.wp,
            bk: self.bk + other.bk,
        }
    }

    /// No statistic is negative.
    pub open spec fn non_negative(self) -> bool {
        &&& 0 <= self.ipouts
        &&& 0 <= self.w
        &&& 0 <= self.l
        &&& 0 <= self.sv
        &&& 0 <= self.h
        &&& 0 <= self.r
        &&& 0 <= self.er
        &&& 0 <= self.hr
        &&& 0 <= self.so
        &&& 0 <= self.bb
        &&& 0 <= self.ibb
        &&& 0 <= self.hbp
        &&& 0 <= self.wp
        &&& 0 <= self.bk
    }

    /// Every statistic is at most that of `other`.
    pub open spec fn at_most(self, other: PitchingCounts) -> bool {
        &&& self.ipouts <= other.ipouts
        &&& self.w <= other.w
        &&& self.l <= other.l
        &&& self.sv <= other.sv
        &&& self.h <= other.h
        &&& self.r <= other.r
        &&& self.er <= other.er
        &&& self.hr <= other.hr
        &&& self.so <= other.so
        &&& self.bb <= other.bb
        &&& self.ibb <= other.ibb
        &&& self.hbp <= other.hbp
        &&& self.wp <= other.wp
        &&& self.bk <= other.bk
    }

    /// Every statistic can be held by a summary's 32-bit counter.
    pub open spec fn fits(self) -> bool {
        &&& self.ipouts <= u32::MAX
        &&& self.w <= u32::MAX
        &&& self.l <= u32::MAX
        &&& self.sv <= u32::MAX
        &&& self.h <= u32::MAX
        &&& self.r <= u32::MAX
        &&& self.er <= u32::MAX
        &&& self.hr <= u32::MAX
        &&& self.so <= u32::MAX
        &&& self.bb <= u32::MAX
        &&& self.ibb <= u32::MAX
        &&& self.hbp <= u32::MAX
        &&& self.wp <= u32::MAX
        &&& self.bk <= u32::MAX
    }
}

impl RawBattingSeason {
    /// Plate appearances as the row implies them: at bats, walks, hit by pitch and both
    /// kinds of sacrifice, a missing statistic counting as none.
    pub open spec fn plate_appearances(&self) -> int {
        self.ab + self.bb + self.hbp.unwrap_or(0) + self.sf.unwrap_or(0) + self.sh.unwrap_or(0)
    }
}

impl BattingSeason {
    /// The season that a raw row stands for: missing statistics are zero, and the plate
    /// appearances are derived from the row.
    pub open spec fn of_raw(raw: RawBattingSeason) -> BattingSeason {
        BattingSeason {
            playerid: raw.playerid,
            yearid: raw.yearid,
            g: raw.g,
            pa: raw.plate_appearances() as u16,
            ab: raw.ab,
            r: raw.r,
            h: raw.h,
            double: raw.double,
            triple: raw.triple,
            hr: raw.hr,
            rbi: raw.rbi.unwrap_or(0),
            sb: raw.sb.unwrap_or(0),
            cs: raw.cs.unwrap_or(0),
            bb: raw.bb,
            so: raw.so.unwrap_or(0),
            ibb: raw.ibb.unwrap_or(0),
            hbp: raw.hbp.unwrap_or(0),
            sh: raw.sh.unwrap_or(0),
            sf: raw.sf.unwrap_or(0),
            gidp: raw.gidp.unwrap_or(0),
        }
    }

    /// Completes a raw row. A row whose plate appearances do not fit the 16-bit counter
    /// is refused.
    pub fn from_raw(raw: RawBattingSeason) -> (season: Option<BattingSeason>)
        ensures
            season is Some <==> raw.plate_appearances() <= u16::MAX,
            season matches Some(s) ==> s == BattingSeason::of_raw(raw),
    {
        let hbp: u8 = raw.hbp.unwrap_or(0);
        let sf: u8 = raw.sf.unwrap_or(0);
        let sh: u8 = raw.sh.unwrap_or(0);
        let pa: u32 = raw.ab as u32 + raw.bb as u32 + hbp as u32 + sf as u32 + sh as u32;
        if pa > u16::MAX as u32 {
            return None;
        }
        Some(
            BattingSeason {
                playerid: raw.playerid,
                yearid: raw.yearid,
                g: raw.g,
                pa: pa as u16,
                ab: raw.ab,
                r: raw.r,
                h: raw.h,
                double: raw.double,
                triple: raw.triple,
                hr: raw.hr,
                rbi: raw.rbi.unwrap_or(0),
                sb: raw.sb.unwrap_or(0),
                cs: raw.cs.unwrap_or(0),
                bb: raw.bb,
                so: raw.so.unwrap_or(0),
                ibb: raw.ibb.unwrap_or(0),
                hbp,
                sh,
                sf,
                gidp: raw.gidp.unwrap_or(0),
            },
        )
    }

    /// What this stint adds to a sum of seasons.
    pub open spec fn counts(&self) -> BattingCounts {
        BattingCounts {
            g: self.g as int,
            pa: self.pa as int,
            ab: self.ab as int,
            r: self.r as int,
            h: self.h as int,
            double: self.double as int,
            triple: self.triple as int,
            hr: self.hr as int,
            rbi: self.rbi as int,
            sb: self.sb as int,
            cs: self.cs as int,
            bb: self.bb as int,
            so: self.so as int,
            ibb: self.ibb as int,
            hbp: self.hbp as int,
            sh: self.sh as int,
            sf: self.sf as int,
            gidp: self.gidp as int,
        }
    }

    pub fn playerid(&self) -> (id: &String)
        ensures
            *id == self.playerid,
    {
        &self.playerid
    }

    pub fn yearid(&self) -> (year: &u16)
        ensures
            *year == self.yearid,
    {
        &self.yearid
    }

    pub fn is_year(&self, year: u16) -> (same: bool)
        ensures
            same == (self.yearid == year),
    {
        self.yearid == year
    }
}

impl PitchingSeason {
    /// The season that a raw row stands for: missing statistics are zero.
    pub open spec fn of_raw(raw: RawPitchingSeason) -> PitchingSeason {
        PitchingSeason {
            playerid: raw.playerid,
            yearid: raw.yearid,
            ipouts: raw.ipouts,
            w: raw.w,
            l: raw.l,
            sv: raw.sv,
            h: raw.h,
            r: raw.r,
            er: raw.er,
            hr: raw.hr,
            so: raw.so,
            bb: raw.bb,
            ibb: raw.ibb.unwrap_or(0),
            hbp: raw.hbp.unwrap_or(0),
            wp: raw.wp.unwrap_or(0),
            bk: raw.bk,
        }
    }

    /// Completes a raw row.
    pub fn from_raw(raw: RawPitchingSeason) -> (season: PitchingSeason)
        ensures
            season == PitchingSeason::of_raw(raw),
    {
        PitchingSeason {
            playerid: raw.playerid,
            yearid: raw.yearid,
            ipouts: raw.ipouts,
            w: raw.w,
            l: raw.l,
            sv: raw.sv,
            h: raw.h,
            r: raw.r,
            er: raw.er,
            hr: raw.hr,
            so: raw.so,
            bb: raw.bb,
            ibb: raw.ibb.unwrap_or(0),
            hbp: raw.hbp.unwrap_or(0),
            wp: raw.wp.unwrap_or(0),
            bk: raw.bk,
        }
    }

    /// What this stint adds to a sum of seasons.
    pub open spec fn counts(&self) -> PitchingCounts {
        PitchingCounts {
            ipouts: self.ipouts as int,
            w: self.w as int,
            l: self.l as int,
            sv: self.sv as int,
            h: self.h as int,
            r: self.r as int,
            er: self.er as int,
            hr: self.hr as int,
            so: self.so as int,
            bb: self.bb as int,
            ibb: self.ibb as int,
            hbp: self.hbp as int,
            wp: self.wp as int,
            bk: self.bk as int,
        }
    }

    pub fn playerid(&self) -> (id: &String)
        ensures
            *id == self.playerid,
    {
        &self.playerid
    }

    pub fn yearid(&self) -> (year: &u16)
        ensures
            *year == self.yearid,
    {
        &self.yearid
    }

    pub fn is_year(&self, year: u16) -> (same: bool)
        ensures
            same == (self.yearid == year),
    {
        self.yearid == year
    }
}

/// The sum of one or more batting stints: a player's year, or a league's.
#[derive(Clone, Copy, Debug)]
pub struct BattingSeasonSummary {
    pub g: u32,
    pub pa: u32,
    pub ab: u32,
    pub r: u32,
    pub h: u32,
    pub double: u32,
    pub triple: u32,
    pub hr: u32,
    pub rbi: u32,
    pub sb: u32,
    pub cs: u32,
    pub bb: u32,
    pub so: u32,
    pub ibb: u32,
    pub hbp: u32,
    pub sh: u32,
    pub sf: u32,
    pub gidp: u32,
}

/// The sum of one or more pitching stints.
#[derive(Clone, Copy, Debug)]
pub struct PitchingSeasonSummary {
    pub ipouts: u32,
    pub w: u32,
    pub l: u32,
    pub sv: u32,
    pub h: u32,
    pub r: u32,
    pub er: u32,
    pub hr: u32,
    pub so: u32,
    pub bb: u32,
    pub ibb: u32,
    pub hbp: u32,
    pub wp: u32,
    pub bk: u32,
}

impl View for BattingSeasonSummary {
    type V = BattingCounts;

    open spec fn view(&self) -> BattingCounts {
        BattingCounts {
            g: self.g as int,
            pa: self.pa as int,
            ab: self.ab as int,
            r: self.r as int,
            h: self.h as int,
            double: self.double as int,
            triple: self.triple as int,
            hr: self.hr as int,
            rbi: self.rbi as int,
            sb: self.sb as int,
            cs: self.cs as int,
            bb: self.bb as int,
            so: self.so as int,
            ibb: self.ibb as int,
            hbp: self.hbp as int,
            sh: self.sh as int,
            sf: self.sf as int,
            gidp: self.gidp as int,
        }
    }
}

impl View for PitchingSeasonSummary {
    type V = PitchingCounts;

    open spec fn view(&self) -> PitchingCounts {
        PitchingCounts {
            ipouts: self.ipouts as int,
            w: self.w as int,
            l: self.l as int,
            sv: self.sv as int,
            h: self.h as int,
            r: self.r as int,
            er: self.er as int,
            hr: self.hr as int,
            so: self.so as int,
            bb: self.bb as int,
            ibb: self.ibb as int,
            hbp: self.hbp as int,
            wp: self.wp as int,
            bk: self.bk as int,
        }
    }
}

impl BattingSeasonSummary {
    /// The summary of no seasons.
    pub fn new() -> (summary: Self)
        ensures
            summary@ == BattingCounts::zero(),
    {
        BattingSeasonSummary {
            g: 0,
            pa: 0,
            ab: 0,
            r: 0,
            h: 0,
            double: 0,
            triple: 0,
            hr: 0,
            rbi: 0,
            sb: 0,
            cs: 0,
            bb: 0,
            so: 0,
            ibb: 0,
            hbp: 0,
            sh: 0,
            sf: 0,
            gidp: 0,
        }
    }

    pub fn pa(&self) -> (pa: &u32)
        ensures
            *pa == self.pa,
    {
        &self.pa
    }

    /// Whether `season` can be added without any counter passing its limit.
    pub fn accepts(&self, season: &BattingSeason) -> (ok: bool)
        ensures
            ok == self@.plus(season.counts()).fits(),
    {
        let limit: u32 = u32::MAX;
        self.g <= limit - season.g as u32 && self.pa <= limit - season.pa as u32 && self.ab
            <= limit - season.ab as u32 && self.r <= limit - season.r as u32 && self.h <= limit
            - season.h as u32 && self.double <= limit - season.double as u32 && self.triple
            <= limit - season.triple as u32 && self.hr <= limit - season.hr as u32 && self.rbi
            <= limit - season.rbi as u32 && self.sb <= limit - season.sb as u32 && self.cs
            <= limit - season.cs as u32 && self.bb <= limit - season.bb as u32 && self.so
            <= limit - season.so as u32 && self.ibb <= limit - season.ibb as u32 && self.hbp
            <= limit - season.hbp as u32 && self.sh <= limit - season.sh as u32 && self.sf
            <= limit - season.sf as u32 && self.gidp <= limit - season.gidp as u32
    }

    /// This summary with `season` added to it.
    pub fn add_season(&self, season: &BattingSeason) -> (sum: Self)
        requires
            self@.plus(season.counts()).fits(),
        ensures
            sum@ == self@.plus(season.counts()),
    {
        BattingSeasonSummary {
            g: self.g + season.g as u32,
            pa: self.pa + season.pa as u32,
            ab: self.ab + season.ab as u32,
            r: self.r + season.r as u32,
            h: self.h + season.h as u32,
            double: self.double + season.double as u32,
            triple: self.triple + season.triple as u32,
            hr: self.hr + season.hr as u32,
            rbi: self.rbi + season.rbi as u32,
            sb: self.sb + season.sb as u32,
            cs: self.cs + season.cs as u32,
            bb: self.bb + season.bb as u32,
            so: self.so + season.so as u32,
            ibb: self.ibb + season.ibb as u32,
            hbp: self.hbp + season.hbp as u32,
            sh: self.sh + season.sh as u32,
            sf: self.sf + season.sf as u32,
            gidp: self.gidp + season.gidp as u32,
        }
    }

    /// Adds `season` to this summary in place.
    pub fn mut_add_season(&mut self, season: &BattingSeason)
        requires
            old(self)@.plus(season.counts()).fits(),
        ensures
            final(self)@ == old(self)@.plus(season.counts()),
    {
        self.g += season.g as u32;
        self.pa += season.pa as u32;
        self.ab += season.ab as u32;
        self.r += season.r as u32;
        self.h += season.h as u32;
        self.double += season.double as u32;
        self.triple += season.triple as u32;
        self.hr += season.hr as u32;
        self.rbi += season.rbi as u32;
        self.sb += season.sb as u32;
        self.cs += season.cs as u32;
        self.bb += season.bb as u32;
        self.so += season.so as u32;
        self.ibb += season.ibb as u32;
        self.hbp += season.hbp as u32;
        self.sh += season.sh as u32;
        self.sf += season.sf as u32;
        self.gidp += season.gidp as u32;
    }
}

impl PitchingSeasonSummary {
    /// The summary of no seasons.
    pub fn new() -> (summary: Self)
        ensures
            summary@ == PitchingCounts::zero(),
    {
        PitchingSeasonSummary {
            ipouts: 0,
            w: 0,
            l: 0,
            sv: 0,
            h: 0,
            r: 0,
            er: 0,
            hr: 0,
            so: 0,
            bb: 0,
            ibb: 0,
            hbp: 0,
            wp: 0,
            bk: 0,
        }
    }

    pub fn ipouts(&self) -> (ipouts: &u32)
        ensures
            *ipouts == self.ipouts,
    {
        &self.ipouts
    }

    /// Whether `season` can be added without any counter passing its limit.
    pub fn accepts(&self, season: &PitchingSeason) -> (ok: bool)
        ensures
            ok == self@.plus(season.counts()).fits(),
    {
        let limit: u32 = u32::MAX;
        self.ipouts <= limit - season.ipouts as u32 && self.w <= limit - season.w as u32 && self.l
            <= limit - season.l as u32 && self.sv <= limit - season.sv as u32 && self.h <= limit
            - season.h as u32 && self.r <= limit - season.r as u32 && self.er <= limit
            - season.er as u32 && self.hr <= limit - season.hr as u32 && self.so <= limit
            - season.so as u32 && self.bb <= limit - season.bb as u32 && self.ibb <= limit
            - season.ibb as u32 && self.hbp <= limit - season.hbp as u32 && self.wp <= limit
            - season.wp as u32 && self.bk <= limit - season.bk as u32
    }

    /// This summary with `season` added to it.
    pub fn add_season(&self, season: &PitchingSeason) -> (sum: Self)
        requires
            self@.plus(season.counts()).fits(),
        ensures
            sum@ == self@.plus(season.counts()),
    {
        PitchingSeasonSummary {
            ipouts: self.ipouts + season.ipouts as u32,
            w: self.w + season.w as u32,
            l: self.l + season.l as u32,
            sv: self.sv + season.sv as u32,
            h: self.h + season.h as u32,
            r: self.r + season.r as u32,
            er: self.er + season.er as u32,
            hr: self.hr + season.hr as u32,
            so: self.so + season.so as u32,
            bb: self.bb + season.bb as u32,
            ibb: self.ibb + season.ibb as u32,
            hbp: self.hbp + season.hbp as u32,
            wp: self.wp + season.wp as u32,
            bk: self.bk + season.bk as u32,
        }
    }

    /// Adds `season` to this summary in place.
    pub fn mut_add_season(&mut self, season: &PitchingSeason)
        requires
            old(self)@.plus(season.counts()).fits(),
        ensures
            final(self)@ == old(self)@.plus(season.counts()),
    {
        self.ipouts += season.ipouts as u32;
        self.w += season.w as u32;
        self.l += season.l as u32;
        self.sv += season.sv as u32;
        self.h += season.h as u32;
        self.r += season.r as u32;
        self.er += season.er as u32;
        self.hr += season.hr as u32;
        self.so += season.so as u32;
        self.bb += season.bb as u32;
        self.ibb += season.ibb as u32;
        self.hbp += season.hbp as u32;
        self.wp += season.wp as u32;
        self.bk += season.bk as u32;
    }
}

/// What a player's record of one year says about their position.
#[derive(Clone, Copy, Debug)]
pub enum PlayerType {
    NoAppearances,
    Batter,
    Pitcher,
    Unknown,
}

/// A player's opportunities by year, as mathematical maps.
pub struct PlayerView {
    pub pa: Map<u16, u16>,
    pub ipouts: Map<u16, u16>,
}

/// Innings pitched for comparing with plate appearances: a third of the outs, and one
/// inning where only one or two outs were recorded.
pub open spec fn innings_for_typing(ipouts: u16) -> int {
    if ipouts >= 3 {
        ipouts as int / 3
    } else {
        1
    }
}

impl PlayerView {
    pub open spec fn empty() -> PlayerView {
        PlayerView { pa: Map::empty(), ipouts: Map::empty() }
    }

    /// Plate appearances recorded for `year`, none counting as zero.
    pub open spec fn pa_in(self, year: u16) -> int {
        if self.pa.contains_key(year) {
            self.pa[year] as int
        } else {
            0
        }
    }

    /// Outs recorded for `year`, none counting as zero.
    pub open spec fn ipouts_in(self, year: u16) -> int {
        if self.ipouts.contains_key(year) {
            self.ipouts[year] as int
        } else {
            0
        }
    }

    /// The record after a batting stint of `pa` plate appearances in `year`.
    pub open spec fn with_pa(self, year: u16, pa: u16) -> PlayerView {
        PlayerView { pa: self.pa.insert(year, (self.pa_in(year) + pa) as u16), ipouts: self.ipouts }
    }

    /// The record after a pitching stint of `ipouts` outs in `year`.
    pub open spec fn with_ipouts(self, year: u16, ipouts: u16) -> PlayerView {
        PlayerView {
            pa: self.pa,
            ipouts: self.ipouts.insert(year, (self.ipouts_in(year) + ipouts) as u16),
        }
    }

    /// The position that the year's record speaks for. With both kinds of record the larger
    /// of plate appearances and innings decides; with one kind alone, of either kind, the
    /// player counts as a batter.
    pub open spec fn type_in(self, year: u16) -> PlayerType {
        if self.pa.contains_key(year) && self.ipouts.contains_key(year) {
            let ip = innings_for_typing(self.ipouts[year]);
            if self.pa[year] > ip {
                PlayerType::Batter
            } else if self.pa[year] < ip {
                PlayerType::Pitcher
            } else {
                PlayerType::Unknown
            }
        } else if self.pa.contains_key(year) || self.ipouts.contains_key(year) {
            PlayerType::Batter
        } else {
            PlayerType::NoAppearances
        }
    }

    pub open spec fn is_batter(self, year: u16) -> bool {
        self.type_in(year) is Batter || self.type_in(year) is Unknown
    }

    pub open spec fn is_pitcher(self, year: u16) -> bool {
        self.type_in(year) is Pitcher || self.type_in(year) is Unknown
    }
}

/// One player's opportunities, year by year: plate appearances and outs recorded.
pub struct Player {
    ipouts: std::collections::BTreeMap<u16, u16>,
    pa: std::collections::BTreeMap<u16, u16>,
}

impl View for Player {
    type V = PlayerView;

    closed spec fn view(&self) -> PlayerView {
        PlayerView { pa: self.pa@, ipouts: self.ipouts@ }
    }
}

impl Player {
    pub fn new() -> (player: Self)
        ensures
            player@ == PlayerView::empty(),
    {
        Player { ipouts: std::collections::BTreeMap::new(), pa: std::collections::BTreeMap::new() }
    }

    /// A second copy of this record.
    pub fn duplicate(&self) -> (copy: Self)
        ensures
            copy@ == self@,
    {
        Player { ipouts: self.ipouts.clone(), pa: self.pa.clone() }
    }

    /// Outs recorded for `year`, none counting as zero.
    pub fn ipouts_in(&self, year: u16) -> (ipouts: u16)
        ensures
            ipouts == self@.ipouts_in(year),
    {
        match self.ipouts.get(&year) {
            Some(ipouts) => *ipouts,
            None => 0,
        }
    }

    /// Plate appearances recorded for `year`, none counting as zero.
    pub fn pa_in(&self, year: u16) -> (pa: u16)
        ensures
            pa == self@.pa_in(year),
    {
        match self.pa.get(&year) {
            Some(pa) => *pa,
            None => 0,
        }
    }

    /// Counts a pitching stint towards its year.
    pub fn add_ip(&mut self, record: &PitchingSeason)
        requires
            old(self)@.ipouts_in(record.yearid) + record.ipouts <= u16::MAX,
        ensures
            final(self)@ == old(self)@.with_ipouts(record.yearid, record.ipouts),
    {
        let year: u16 = record.yearid;
        let season_ipouts: u16 = self.ipouts_in(year);
        self.ipouts.insert(year, season_ipouts + record.ipouts);
    }

    /// Counts a batting stint towards its year.
    pub fn add_pa(&mut self, record: &BattingSeason)
        requires
            old(self)@.pa_in(record.yearid) + record.pa <= u16::MAX,
        ensures
            final(self)@ == old(self)@.with_pa(record.yearid, record.pa),
    {
        let year: u16 = record.yearid;
        let season_pa: u16 = self.pa_in(year);
        self.pa.insert(year, season_pa + record.pa);
    }

    pub fn player_type(&self, year: u16) -> (kind: PlayerType)
        ensures
            kind == self@.type_in(year),
    {
        let year_pa = self.pa.get(&year);
        let year_ipouts = self.ipouts.get(&year);
        match (year_pa, year_ipouts) {
            (Some(pa), Some(ipouts)) => {
                let ip: u16 = if *ipouts >= 3 {
                    *ipouts / 3
                } else {
                    1
                };
                if *pa > ip {
                    PlayerType::Batter
                } else if *pa < ip {
                    PlayerType::Pitcher
                } else {
                    PlayerType::Unknown
                }
            },
            (Some(_), None) => PlayerType::Batter,
            (None, Some(_)) => PlayerType::Batter,
            (None, None) => PlayerType::NoAppearances,
        }
    }

    pub fn is_batter(&self, year: u16) -> (batter: bool)
        ensures
            batter == self@.is_batter(year),
    {
        match self.player_type(year) {
            PlayerType::NoAppearances => false,
            PlayerType::Batter => true,
            PlayerType::Pitcher => false,
            PlayerType::Unknown => true,
        }
    }

    pub fn is_pitcher(&self, year: u16) -> (pitcher: bool)
        ensures
            pitcher == self@.is_pitcher(year),
    {
        match self.player_type(year) {
            PlayerType::NoAppearances => false,
            PlayerType::Batter => false,
            PlayerType::Pitcher => true,
            PlayerType::Unknown => true,
        }
    }
}

/// Why a row of a table was not loaded. `row` counts the rows of the table from zero.
#[derive(Clone, Copy, Debug)]
pub enum LoadError {
    /// The plate appearances that the row implies pass the limit of a stint's counter.
    PlateAppearances { row: usize },
    /// With this row, the player's opportunities of the year would pass the limit of a
    /// year's counter.
    SeasonTotal { row: usize },
}

impl LoadError {
    /// The row that was refused, counted from zero.
    pub open spec fn at(self) -> usize {
        match self {
            LoadError::PlateAppearances { row } => row,
            LoadError::SeasonTotal { row } => row,
        }
    }

    /// The row that was refused, counted from zero.
    pub fn row(&self) -> (row: usize)
        ensures
            row == self.at(),
    {
        match self {
            LoadError::PlateAppearances { row } => *row,
            LoadError::SeasonTotal { row } => *row,
        }
    }
}

/// The seasons that were loaded and every player's opportunities by year, as mathematical
/// values.
pub struct PlayersView {
    pub roster: Map<Seq<char>, PlayerView>,
    pub batting: Seq<BattingSeason>,
    pub pitching: Seq<PitchingSeason>,
}

impl PlayersView {
    pub open spec fn empty() -> PlayersView {
        PlayersView { roster: Map::empty(), batting: Seq::empty(), pitching: Seq::empty() }
    }

    /// The opportunities on record for a player, empty for one never seen.
    pub open spec fn record_of(self, playerid: Seq<char>) -> PlayerView {
        if self.roster.contains_key(playerid) {
            self.roster[playerid]
        } else {
            PlayerView::empty()
        }
    }

    /// Whether the player's plate appearances of the year stay within the counter with
    /// `record` added.
    pub open spec fn takes_batting(self, record: BattingSeason) -> bool {
        self.record_of(record.playerid@).pa_in(record.yearid) + record.pa <= u16::MAX
    }

    /// Whether the player's outs of the year stay within the counter with `record` added.
    pub open spec fn takes_pitching(self, record: PitchingSeason) -> bool {
        self.record_of(record.playerid@).ipouts_in(record.yearid) + record.ipouts <= u16::MAX
    }

    /// The state with one more batting stint: it comes last, and its plate appearances count
    /// towards the player's year.
    pub open spec fn with_batting(self, record: BattingSeason) -> PlayersView {
        PlayersView {
            roster: self.roster.insert(
                record.playerid@,
                self.record_of(record.playerid@).with_pa(record.yearid, record.pa),
            ),
            batting: self.batting.push(record),
            pitching: self.pitching,
        }
    }

    /// The state with one more pitching stint.
    pub open spec fn with_pitching(self, record: PitchingSeason) -> PlayersView {
        PlayersView {
            roster: self.roster.insert(
                record.playerid@,
                self.record_of(record.playerid@).with_ipouts(record.yearid, record.ipouts),
            ),
            batting: self.batting,
            pitching: self.pitching.push(record),
        }
    }

    /// The state after these rows are loaded one after the other.
    pub open spec fn with_batting_rows(self, rows: Seq<RawBattingSeason>) -> PlayersView
        decreases rows.len(),
    {
        if rows.len() == 0 {
            self
        } else {
            self.with_batting_rows(rows.drop_last()).with_batting(
                BattingSeason::of_raw(rows.last()),
            )
        }
    }

    /// The state after these rows are loaded one after the other.
    pub open spec fn with_pitching_rows(self, rows: Seq<RawPitchingSeason>) -> PlayersView
        decreases rows.len(),
    {
        if rows.len() == 0 {
            self
        } else {
            self.with_pitching_rows(rows.drop_last()).with_pitching(
                PitchingSeason::of_raw(rows.last()),
            )
        }
    }

    /// Why row `k` cannot be loaded after the rows before it, if it cannot.
    pub open spec fn batting_row_fault(self, rows: Seq<RawBattingSeason>, k: int) -> Option<
        LoadError,
    > {
        if rows[k].plate_appearances() > u16::MAX {
            Some(LoadError::PlateAppearances { row: k as usize })
        } else if !self.with_batting_rows(rows.take(k)).takes_batting(
            BattingSeason::of_raw(rows[k]),
        ) {
            Some(LoadError::SeasonTotal { row: k as usize })
        } else {
            None
        }
    }

    /// Why row `k` cannot be loaded after the rows before it, if it cannot.
    pub open spec fn pitching_row_fault(self, rows: Seq<RawPitchingSeason>, k: int) -> Option<
        LoadError,
    > {
        if !self.with_pitching_rows(rows.take(k)).takes_pitching(PitchingSeason::of_raw(rows[k])) {
            Some(LoadError::SeasonTotal { row: k as usize })
        } else {
            None
        }
    }

    /// The fault of the first of the first `upto` rows that cannot be loaded.
    pub open spec fn batting_fault_in(self, rows: Seq<RawBattingSeason>, upto: int) -> Option<
        LoadError,
    >
        decreases upto,
    {
        if upto <= 0 {
            None
        } else {
            match self.batting_fault_in(rows, upto - 1) {
                Some(fault) => Some(fault),
                None => self.batting_row_fault(rows, upto - 1),
            }
        }
    }

    /// How loading these rows ends: with the fault of the first row that cannot be loaded,
    /// or well.
    pub open spec fn batting_load(self, rows: Seq<RawBattingSeason>) -> Result<(), LoadError> {
        match self.batting_fault_in(rows, rows.len() as int) {
            Some(fault) => Err(fault),
            None => Ok(()),
        }
    }

    /// The state that loading these rows leaves: every row is loaded up to the first that
    /// cannot be.
    pub open spec fn after_batting_load(self, rows: Seq<RawBattingSeason>) -> PlayersView {
        match self.batting_fault_in(rows, rows.len() as int) {
            Some(fault) => self.with_batting_rows(rows.take(fault.at() as int)),
            None => self.with_batting_rows(rows),
        }
    }

    /// A fault among the first rows is the fault of the whole table.
    pub proof fn lemma_batting_fault_stays(self, rows: Seq<RawBattingSeason>, upto: int, later: int)
        requires
            self.batting_fault_in(rows, upto) is Some,
            upto <= later,
        ensures
            self.batting_fault_in(rows, later) == self.batting_fault_in(rows, upto),
        decreases later - upto,
    {
        if upto < later {
            self.lemma_batting_fault_stays(rows, upto, later - 1);
        }
    }

    /// The fault of the first of the first `upto` rows that cannot be loaded.
    pub open spec fn pitching_fault_in(self, rows: Seq<RawPitchingSeason>, upto: int) -> Option<
        LoadError,
    >
        decreases upto,
    {
        if upto <= 0 {
            None
        } else {
            match self.pitching_fault_in(rows, upto - 1) {
                Some(fault) => Some(fault),
                None => self.pitching_row_fault(rows, upto - 1),
            }
        }
    }

    /// How loading these rows ends: with the fault of the first row that cannot be loaded,
    /// or well.
    pub open spec fn pitching_load(self, rows: Seq<RawPitchingSeason>) -> Result<(), LoadError> {
        match self.pitching_fault_in(rows, rows.len() as int) {
            Some(fault) => Err(fault),
            None => Ok(()),
        }
    }

    /// The state that loading these rows leaves: every row is loaded up to the first that
    /// cannot be.
    pub open spec fn after_pitching_load(self, rows: Seq<RawPitchingSeason>) -> PlayersView {
        match self.pitching_fault_in(rows, rows.len() as int) {
            Some(fault) => self.with_pitching_rows(rows.take(fault.at() as int)),
            None => self.with_pitching_rows(rows),
        }
    }

    /// A fault among the first rows is the fault of the whole table.
    pub proof fn lemma_pitching_fault_stays(
        self,
        rows: Seq<RawPitchingSeason>,
        upto: int,
        later: int,
    )
        requires
            self.pitching_fault_in(rows, upto) is Some,
            upto <= later,
        ensures
            self.pitching_fault_in(rows, later) == self.pitching_fault_in(rows, upto),
        decreases later - upto,
    {
        if upto < later {
            self.lemma_pitching_fault_stays(rows, upto, later - 1);
        }
    }

    /// A batting stint is in position unless the player's record of that year speaks for a
    /// pitcher or holds nothing. A player without any record is left alone.
    pub open spec fn counts_as_batter(self, season: BattingSeason) -> bool {
        self.roster.contains_key(season.playerid@) ==> self.roster[season.playerid@].is_batter(
            season.yearid,
        )
    }

    /// A pitching stint is in position unless the player's record of that year speaks for a
    /// batter or holds nothing.
    pub open spec fn counts_as_pitcher(self, season: PitchingSeason) -> bool {
        self.roster.contains_key(season.playerid@) ==> self.roster[season.playerid@].is_pitcher(
            season.yearid,
        )
    }

    pub open spec fn batters(self) -> spec_fn(BattingSeason) -> bool {
        |s: BattingSeason| self.counts_as_batter(s)
    }

    pub open spec fn pitchers(self) -> spec_fn(PitchingSeason) -> bool {
        |s: PitchingSeason| self.counts_as_pitcher(s)
    }

    /// The state without the stints of players out of position: batting stints of
    /// pitchers and pitching stints of batters. The opportunities on record stay.
    pub open spec fn in_position(self) -> PlayersView {
        PlayersView {
            roster: self.roster,
            batting: self.batting.filter(self.batters()),
            pitching: self.pitching.filter(self.pitchers()),
        }
    }
}

impl PlayersView {
    /// Loading one table after another is loading the two as one.
    pub proof fn lemma_batting_rows_in_turn(
        self,
        first: Seq<RawBattingSeason>,
        second: Seq<RawBattingSeason>,
    )
        ensures
            self.with_batting_rows(first + second) == self.with_batting_rows(
                first,
            ).with_batting_rows(second),
        decreases second.len(),
    {
        if second.len() == 0 {
            assert(first + second == first);
        } else {
            self.lemma_batting_rows_in_turn(first, second.drop_last());
            assert((first + second).drop_last() == first + second.drop_last());
        }
    }

    /// Loading overwrites nothing: the stints of the rows follow those that were there,
    /// in the order of the rows, and the stints of the other kind stay.
    pub proof fn lemma_batting_rows_appended(self, rows: Seq<RawBattingSeason>)
        ensures
            self.with_batting_rows(rows).batting == self.batting + rows.map_values(
                |raw: RawBattingSeason| BattingSeason::of_raw(raw),
            ),
            self.with_batting_rows(rows).pitching == self.pitching,
        decreases rows.len(),
    {
        if rows.len() > 0 {
            self.lemma_batting_rows_appended(rows.drop_last());
            let stints = rows.map_values(|raw: RawBattingSeason| BattingSeason::of_raw(raw));
            assert(stints.drop_last() == rows.drop_last().map_values(
                |raw: RawBattingSeason| BattingSeason::of_raw(raw),
            ));
        }
    }

    /// Loading one table after another is loading the two as one.
    pub proof fn lemma_pitching_rows_in_turn(
        self,
        first: Seq<RawPitchingSeason>,
        second: Seq<RawPitchingSeason>,
    )
        ensures
            self.with_pitching_rows(first + second) == self.with_pitching_rows(
                first,
            ).with_pitching_rows(second),
        decreases second.len(),
    {
        if second.len() == 0 {
            assert(first + second == first);
        } else {
            self.lemma_pitching_rows_in_turn(first, second.drop_last());
            assert((first + second).drop_last() == first + second.drop_last());
        }
    }

    /// Loading overwrites nothing: the stints of the rows follow those that were there,
    /// in the order of the rows, and the stints of the other kind stay.
    pub proof fn lemma_pitching_rows_appended(self, rows: Seq<RawPitchingSeason>)
        ensures
            self.with_pitching_rows(rows).pitching == self.pitching + rows.map_values(
                |raw: RawPitchingSeason| PitchingSeason::of_raw(raw),
            ),
            self.with_pitching_rows(rows).batting == self.batting,
        decreases rows.len(),
    {
        if rows.len() > 0 {
            self.lemma_pitching_rows_appended(rows.drop_last());
            let stints = rows.map_values(|raw: RawPitchingSeason| PitchingSeason::of_raw(raw));
            assert(stints.drop_last() == rows.drop_last().map_values(
                |raw: RawPitchingSeason| PitchingSeason::of_raw(raw),
            ));
        }
    }

    /// Removing the players out of position a second time removes nothing more.
    pub proof fn lemma_in_position_once(self)
        ensures
            self.in_position().in_position() == self.in_position(),
    {
        let once = self.in_position();
        lemma_chosen_again(self.batting, self.batters(), once.batters());
        lemma_chosen_again(self.pitching, self.pitchers(), once.pitchers());
    }
}

/// Every season that was loaded, and every player's opportunities by year.
pub struct Players {
    players: StringHashMap<Player>,
    batting: Vec<BattingSeason>,
    pitching: Vec<PitchingSeason>,
}

impl View for Players {
    type V = PlayersView;

    closed spec fn view(&self) -> PlayersView {
        PlayersView {
            roster: self.players@.map_values(|p: Player| p@),
            batting: self.batting@,
            pitching: self.pitching@,
        }
    }
}

impl Players {
    pub fn new() -> (players: Self)
        ensures
            players@ == PlayersView::empty(),
    {
        let players = Players {
            players: StringHashMap::new(),
            batting: Vec::new(),
            pitching: Vec::new(),
        };
        assert(players@.roster =~= Map::empty());
        players
    }

    /// Takes in one batting stint, unless it would carry the player's plate appearances
    /// of the year past the counter's limit.
    pub fn add_batting(&mut self, record: BattingSeason) -> (added: bool)
        ensures
            added == old(self)@.takes_batting(record),
            final(self)@ == if added {
                old(self)@.with_batting(record)
            } else {
                old(self)@
            },
    {
        let mut player = match self.players.get(record.playerid.as_str()) {
            Some(known) => known.duplicate(),
            None => Player::new(),
        };
        if player.pa_in(record.yearid) > u16::MAX - record.pa {
            return false;
        }
        player.add_pa(&record);
        self.players.insert(record.playerid.clone(), player);
        self.batting.push(record);
        assert(self@.roster =~= old(self)@.with_batting(record).roster);
        true
    }

    /// Takes in one pitching stint, unless it would carry the player's outs of the year
    /// past the counter's limit.
    pub fn add_pitching(&mut self, record: PitchingSeason) -> (added: bool)
        ensures
            added == old(self)@.takes_pitching(record),
            final(self)@ == if added {
                old(self)@.with_pitching(record)
            } else {
                old(self)@
            },
    {
        let mut player = match self.players.get(record.playerid.as_str()) {
            Some(known) => known.duplicate(),
            None => Player::new(),
        };
        if player.ipouts_in(record.yearid) > u16::MAX - record.ipouts {
            return false;
        }
        player.add_ip(&record);
        self.players.insert(record.playerid.clone(), player);
        self.pitching.push(record);
        assert(self@.roster =~= old(self)@.with_pitching(record).roster);
        true
    }

    /// Loads the rows of a batting table in order. Loading stops at the first row that
    /// cannot be taken in; the rows before it stay loaded.
    pub fn load_batting(&mut self, rows: Vec<RawBattingSeason>) -> (loaded: Result<(), LoadError>)
        ensures
            loaded == old(self)@.batting_load(rows@),
            final(self)@ == old(self)@.after_batting_load(rows@),
    {
        let ghost before = self@;
        let count: usize = rows.len();
        let mut row: usize = 0;
        for raw in it: rows
            invariant
                row == it.index(),
                row <= count == rows@.len(),
                before == old(self)@,
                self@ == before.with_batting_rows(rows@.take(row as int)),
                before.batting_fault_in(rows@, row as int) is None,
        {
            proof {
                assert(row < rows@.len());
                assert(rows@.take(row + 1).drop_last() == rows@.take(row as int));
            }
            match BattingSeason::from_raw(raw) {
                None => {
                    proof {
                        before.lemma_batting_fault_stays(rows@, row + 1, rows@.len() as int);
                    }
                    return Err(LoadError::PlateAppearances { row });
                },
                Some(record) => {
                    if !self.add_batting(record) {
                        proof {
                            before.lemma_batting_fault_stays(rows@, row + 1, rows@.len() as int);
                        }
                        return Err(LoadError::SeasonTotal { row });
                    }
                },
            }
            row += 1;
        }
        proof {
            assert(rows@.take(rows@.len() as int) == rows@);
        }
        Ok(())
    }

    /// Loads the rows of a pitching table in order. Loading stops at the first row that
    /// cannot be taken in; the rows before it stay loaded.
    pub fn load_pitching(&mut self, rows: Vec<RawPitchingSeason>) -> (loaded: Result<(), LoadError>)
        ensures
            loaded == old(self)@.pitching_load(rows@),
            final(self)@ == old(self)@.after_pitching_load(rows@),
    {
        let ghost before = self@;
        let count: usize = rows.len();
        let mut row: usize = 0;
        for raw in it: rows
            invariant
                row == it.index(),
                row <= count == rows@.len(),
                before == old(self)@,
                self@ == before.with_pitching_rows(rows@.take(row as int)),
                before.pitching_fault_in(rows@, row as int) is None,
        {
            proof {
                assert(row < rows@.len());
                assert(rows@.take(row + 1).drop_last() == rows@.take(row as int));
            }
            let record = PitchingSeason::from_raw(raw);
            if !self.add_pitching(record) {
                proof {
                    before.lemma_pitching_fault_stays(rows@, row + 1, rows@.len() as int);
                }
                return Err(LoadError::SeasonTotal { row });
            }
            row += 1;
        }
        proof {
            assert(rows@.take(rows@.len() as int) == rows@);
        }
        Ok(())
    }

    /// The batting stints of the years `start_year` to `end_year`, in the order in which
    /// they were loaded.
    pub fn batting_seasons(&self, start_year: u16, end_year: u16) -> (seasons: Vec<&BattingSeason>)
        ensures
            seasons@.unref() == self@.batting.filter(batting_in_years(start_year, end_year)),
    {
        let mut seasons: Vec<&BattingSeason> = Vec::new();
        let mut i: usize = 0;
        proof {
            reveal(Seq::filter);
            assert(self.batting@.take(0) == Seq::<BattingSeason>::empty());
        }
        while i < self.batting.len()
            invariant
                i <= self.batting.len(),
                seasons@.unref() == self.batting@.take(i as int).filter(
                    batting_in_years(start_year, end_year),
                ),
            decreases self.batting.len() - i,
        {
            let season = &self.batting[i];
            proof {
                assert(self.batting@.take(i + 1) == self.batting@.take(i as int).push(*season));
                self.batting@.take(i as int).lemma_filter_push(
                    *season,
                    batting_in_years(start_year, end_year),
                );
            }
            if start_year <= season.yearid && season.yearid <= end_year {
                let ghost kept = seasons@;
                seasons.push(season);
                assert(seasons@.unref() == kept.unref().push(*season));
            }
            i += 1;
        }
        proof {
            assert(self.batting@.take(i as int) == self.batting@);
        }
        seasons
    }

    /// The pitching stints of the years `start_year` to `end_year`, in the order in which
    /// they were loaded.
    pub fn pitching_seasons(&self, start_year: u16, end_year: u16) -> (seasons: Vec<
        &PitchingSeason,
    >)
        ensures
            seasons@.unref() == self@.pitching.filter(pitching_in_years(start_year, end_year)),
    {
        let mut seasons: Vec<&PitchingSeason> = Vec::new();
        let mut i: usize = 0;
        proof {
            reveal(Seq::filter);
            assert(self.pitching@.take(0) == Seq::<PitchingSeason>::empty());
        }
        while i < self.pitching.len()
            invariant
                i <= self.pitching.len(),
                seasons@.unref() == self.pitching@.take(i as int).filter(
                    pitching_in_years(start_year, end_year),
                ),
            decreases self.pitching.len() - i,
        {
            let season = &self.pitching[i];
            proof {
                assert(self.pitching@.take(i + 1) == self.pitching@.take(i as int).push(*season));
                self.pitching@.take(i as int).lemma_filter_push(
                    *season,
                    pitching_in_years(start_year, end_year),
                );
            }
            if start_year <= season.yearid && season.yearid <= end_year {
                let ghost kept = seasons@;
                seasons.push(season);
                assert(seasons@.unref() == kept.unref().push(*season));
            }
            i += 1;
        }
        proof {
            assert(self.pitching@.take(i as int) == self.pitching@);
        }
        seasons
    }

    /// Remove players playing out of position. This counts batters pitching and pitchers
    /// batting.
    pub fn remove_out_of_position_players(&mut self)
        ensures
            final(self)@ == old(self)@.in_position(),
    {
        let ghost before = self@;
        let mut batting: Vec<BattingSeason> = Vec::new();
        std::mem::swap(&mut self.batting, &mut batting);
        let mut kept_batting: Vec<BattingSeason> = Vec::new();
        proof {
            reveal(Seq::filter);
            assert(batting@.take(0) == Seq::<BattingSeason>::empty());
        }
        for season in it: batting
            invariant
                self@.roster == before.roster,
                self.pitching@ == before.pitching,
                batting@ == before.batting,
                kept_batting@ == batting@.take(it.index() as int).filter(before.batters()),
        {
            proof {
                let seen = batting@.take(it.index() as int);
                assert(batting@.take(it.index() + 1) == seen.push(season));
                seen.lemma_filter_push(season, before.batters());
            }
            if self.player_is_batter(&season) {
                kept_batting.push(season);
            }
        }
        proof {
            assert(batting@.take(batting@.len() as int) == batting@);
        }
        self.batting = kept_batting;

        let mut pitching: Vec<PitchingSeason> = Vec::new();
        std::mem::swap(&mut self.pitching, &mut pitching);
        let mut kept_pitching: Vec<PitchingSeason> = Vec::new();
        proof {
            assert(pitching@.take(0) == Seq::<PitchingSeason>::empty());
        }
        for season in it: pitching
            invariant
                self@.roster == before.roster,
                self.batting@ == before.batting.filter(before.batters()),
                pitching@ == before.pitching,
                kept_pitching@ == pitching@.take(it.index() as int).filter(before.pitchers()),
        {
            proof {
                let seen = pitching@.take(it.index() as int);
                assert(pitching@.take(it.index() + 1) == seen.push(season));
                seen.lemma_filter_push(season, before.pitchers());
            }
            if self.player_is_pitcher(&season) {
                kept_pitching.push(season);
            }
        }
        proof {
            assert(pitching@.take(pitching@.len() as int) == pitching@);
        }
        self.pitching = kept_pitching;
    }

    /// Whether a batting stint is in position.
    pub fn player_is_batter(&self, season: &BattingSeason) -> (batter: bool)
        ensures
            batter == self@.counts_as_batter(*season),
    {
        match self.players.get(season.playerid.as_str()) {
            Some(player) => player.is_batter(season.yearid),
            None => true,
        }
    }

    /// Whether a pitching stint is in position.
    pub fn player_is_pitcher(&self, season: &PitchingSeason) -> (pitcher: bool)
        ensures
            pitcher == self@.counts_as_pitcher(*season),
    {
        match self.players.get(season.playerid.as_str()) {
            Some(player) => player.is_pitcher(season.yearid),
            None => true,
        }
    }
}

} // verus!
