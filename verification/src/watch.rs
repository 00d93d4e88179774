//! The system watcher: an alert goes on only when a load stays above its
//! threshold for a while, and goes off only once it has dropped clearly
//! below.

use vstd::prelude::*;

verus! {

/// How far below the threshold a load has to drop to turn its alert off,
/// in hundredths of a percent (8 points).
pub const HYSTERESIS: u32 = 800;

/// Which load an alert is about.
#[derive(Debug, Clone, Copy, PartialEq, Eq, Structural)]
pub enum AlertKind {
    Cpu,
    Ram,
}

/// What one tick does to an alert.
#[derive(Debug, Clone, Copy, PartialEq, Eq, Structural)]
pub enum Paso {
    Nada,
    Encender,
    Apagar,
}

/// A sustained threshold: since when the load has been above it (in
/// milliseconds), and whether its alert is on.
#[derive(Debug, Clone, Copy, PartialEq, Eq, Structural)]
pub struct Sostenido {
    pub desde: Option<u64>,
    pub encendido: bool,
}

/// Milliseconds from `desde` to `ahora`; none when the clock is behind.
pub open spec fn elapsed(desde: u64, ahora: u64) -> int {
    if ahora >= desde {
        ahora - desde
    } else {
        0
    }
}

/// One tick of a sustained threshold, for a load `valor` and a threshold
/// `umbral` (both in hundredths of a percent; threshold 0 means the load is
/// not watched), held for `aguantar` milliseconds. Returns the new state and
/// what to announce.
pub open spec fn tick_spec(s: Sostenido, valor: u32, umbral: u32, aguantar: u64, ahora: u64) -> (
    Sostenido,
    Paso,
) {
    if umbral == 0 {
        (Sostenido { desde: None, encendido: false }, if s.encendido {
            Paso::Apagar
        } else {
            Paso::Nada
        })
    } else if valor >= umbral {
        let desde = match s.desde {
            Some(d) => d,
            None => ahora,
        };
        if !s.encendido && elapsed(desde, ahora) >= aguantar {
            (Sostenido { desde: Some(desde), encendido: true }, Paso::Encender)
        } else {
            (Sostenido { desde: Some(desde), encendido: s.encendido }, Paso::Nada)
        }
    } else if s.encendido && valor + HYSTERESIS <= umbral {
        (Sostenido { desde: None, encendido: false }, Paso::Apagar)
    } else {
        (Sostenido { desde: None, encendido: s.encendido }, Paso::Nada)
    }
}

impl Sostenido {
    /// Off, with no time above the threshold.
    pub fn new() -> (r: Sostenido)
        ensures
            r == (Sostenido { desde: None, encendido: false }),
    {
        Sostenido { desde: None, encendido: false }
    }

    /// Is the alert on?
    pub fn encendido(&self) -> (r: bool)
        ensures
            r == self.encendido,
    {
        self.encendido
    }

    /// One tick: see `tick_spec`.
    pub fn tick(&mut self, valor: u32, umbral: u32, aguantar: u64, ahora: u64) -> (p: Paso)
        ensures
            (*final(self), p) == tick_spec(*old(self), valor, umbral, aguantar, ahora),
    {
        if umbral == 0 {
            let estaba = self.encendido;
            self.desde = None;
            self.encendido = false;
            return if estaba {
                Paso::Apagar
            } else {
                Paso::Nada
            };
        }
        if valor >= umbral {
            let desde = match self.desde {
                Some(d) => d,
                None => ahora,
            };
            self.desde = Some(desde);
            let pasado = if ahora >= desde {
                ahora - desde
            } else {
                0
            };
            if !self.encendido && pasado >= aguantar {
                self.encendido = true;
                return Paso::Encender;
            }
            return Paso::Nada;
        }
        self.desde = None;
        if self.encendido && (valor as u64) + (HYSTERESIS as u64) <= (umbral as u64) {
            self.encendido = false;
            return Paso::Apagar;
        }
        Paso::Nada
    }
}

/// An alert that is on is never announced again, and one that is off is
/// never turned off again: every announcement is a change.
pub proof fn lemma_announcements_change_state(s: Sostenido, valor: u32, umbral: u32, aguantar: u64, ahora: u64)
    ensures
        tick_spec(s, valor, umbral, aguantar, ahora).1 == Paso::Encender ==> !s.encendido
            && tick_spec(s, valor, umbral, aguantar, ahora).0.encendido,
        tick_spec(s, valor, umbral, aguantar, ahora).1 == Paso::Apagar ==> s.encendido
            && !tick_spec(s, valor, umbral, aguantar, ahora).0.encendido,
        tick_spec(s, valor, umbral, aguantar, ahora).1 == Paso::Nada ==> tick_spec(
            s,
            valor,
            umbral,
            aguantar,
            ahora,
        ).0.encendido == s.encendido || (umbral == 0 && !s.encendido),
{
}

/// A threshold of 0 watches nothing: whatever the load, the alert ends off.
pub proof fn lemma_zero_threshold_off(s: Sostenido, valor: u32, aguantar: u64, ahora: u64)
    ensures
        !tick_spec(s, valor, 0, aguantar, ahora).0.encendido,
        tick_spec(s, valor, 0, aguantar, ahora).0.desde is None,
{
}

/// A load just below the threshold (less than the hysteresis) keeps an
/// alert that is on.
pub proof fn lemma_hysteresis_keeps_alert(s: Sostenido, valor: u32, umbral: u32, aguantar: u64, ahora: u64)
    requires
        s.encendido,
        umbral > 0,
        valor < umbral,
        valor + HYSTERESIS > umbral,
    ensures
        tick_spec(s, valor, umbral, aguantar, ahora) == (Sostenido { desde: None, encendido: true }, Paso::Nada),
{
}

/// A dip below the threshold restarts the clock: the time above is not
/// accumulated across dips.
pub proof fn lemma_dip_restarts_clock(s: Sostenido, valor: u32, umbral: u32, aguantar: u64, ahora: u64)
    requires
        umbral > 0,
        valor < umbral,
    ensures
        tick_spec(s, valor, umbral, aguantar, ahora).0.desde is None,
{
}

/// Thresholds as stored: whether alerts are on, the CPU and RAM thresholds
/// in percent (0 means not watched) and how long a load must hold, in
/// seconds.
#[derive(Debug, Clone, Copy, PartialEq, Eq, Structural)]
pub struct AlertSettings {
    pub enabled: bool,
    pub cpu: u8,
    pub ram: u8,
    pub seconds: u16,
}

/// A threshold as stored: 0 stays 0 (not watched); the rest is kept between
/// 30 and 100.
pub open spec fn stored_threshold(v: u8) -> u8 {
    if v == 0 {
        0
    } else if v < 30 {
        30
    } else if v > 100 {
        100
    } else {
        v
    }
}

/// The settings as they are saved: thresholds bounded, and the hold time
/// kept between 5 seconds and an hour.
pub fn normalized_settings(s: AlertSettings) -> (r: AlertSettings)
    ensures
        r.enabled == s.enabled,
        r.cpu == stored_threshold(s.cpu),
        r.ram == stored_threshold(s.ram),
        r.seconds == (if s.seconds < 5 {
            5
        } else if s.seconds > 3600 {
            3600
        } else {
            s.seconds
        }),
{
    let bound = |v: u8| -> (r: u8)
        ensures
            r == stored_threshold(v),
        {
            if v == 0 {
                0
            } else if v < 30 {
                30
            } else if v > 100 {
                100
            } else {
                v
            }
        };
    AlertSettings {
        enabled: s.enabled,
        cpu: bound(s.cpu),
        ram: bound(s.ram),
        seconds: if s.seconds < 5 {
            5
        } else if s.seconds > 3600 {
            3600
        } else {
            s.seconds
        },
    }
}

/// How long a load must hold, in milliseconds: the stored seconds, at least
/// five.
pub fn hold_millis(seconds: u16) -> (r: u64)
    ensures
        r == (if seconds < 5 {
            5
        } else {
            seconds
        }) * 1000,
{
    let s: u64 = if seconds < 5 {
        5
    } else {
        seconds as u64
    };
    s * 1000
}

/// A threshold in percent as the watcher compares it (hundredths).
pub fn threshold_hundredths(percent: u8) -> (r: u32)
    ensures
        r == percent * 100,
{
    (percent as u32) * 100
}

} // verus!
