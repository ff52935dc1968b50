//! The settings of a renderer.
use vstd::prelude::*;
use crate::primitive::Font;

verus! {

/// When a finished frame is shown.
#[derive(Clone, Copy, Debug, PartialEq, Eq, Structural)]
pub enum PresentMode {
    AutoVsync,
    AutoNoVsync,
    Fifo,
    FifoRelaxed,
    Immediate,
    Mailbox,
}

/// A set of graphics backends.
#[derive(Clone, Copy, Debug, PartialEq, Eq, Structural)]
pub struct Backends {
    pub vulkan: bool,
    pub metal: bool,
    pub dx12: bool,
    pub dx11: bool,
    pub gl: bool,
    pub browser_webgpu: bool,
}

/// How the edges of triangles are smoothed.
#[derive(Clone, Copy, Debug, PartialEq, Eq, Structural)]
pub enum Antialiasing {
    MSAAx2,
    MSAAx4,
    MSAAx8,
    MSAAx16,
}

/// The settings of a renderer.
#[derive(Clone, Copy, Debug, PartialEq, Eq, Structural)]
pub struct Settings {
    pub present_mode: PresentMode,
    /// The backends among which the renderer may choose.
    pub internal_backend: Backends,
    pub default_font: Font,
    /// The size of text that names no size. Twenty unless set.
    pub default_text_size: u16,
    /// No smoothing unless set.
    pub antialiasing: Option<Antialiasing>,
}

/// `text` in lower case: what `str::to_lowercase` makes of it.
pub uninterp spec fn lowered(text: Seq<char>) -> Seq<char>;

/// `str::to_lowercase`: the text in lower case.
#[verifier::external_body]
fn lowercase(text: &str) -> (lower: String)
    ensures
        lower@ == lowered(text@),
{
    text.to_lowercase()
}

impl Antialiasing {
    /// The number of samples for each pixel.
    pub open spec fn samples(self) -> u32 {
        match self {
            Antialiasing::MSAAx2 => 2,
            Antialiasing::MSAAx4 => 4,
            Antialiasing::MSAAx8 => 8,
            Antialiasing::MSAAx16 => 16,
        }
    }

    /// The number of samples for each pixel.
    pub fn sample_count(self) -> (count: u32)
        ensures
            count == self.samples(),
    {
        match self {
            Antialiasing::MSAAx2 => 2,
            Antialiasing::MSAAx4 => 4,
            Antialiasing::MSAAx8 => 8,
            Antialiasing::MSAAx16 => 16,
        }
    }
}

impl Backends {
    /// Every backend.
    pub open spec fn every() -> Backends {
        Backends { vulkan: true, metal: true, dx12: true, dx11: true, gl: true, browser_webgpu: true }
    }

    /// No backend.
    pub open spec fn none() -> Backends {
        Backends {
            vulkan: false,
            metal: false,
            dx12: false,
            dx11: false,
            gl: false,
            browser_webgpu: false,
        }
    }

    /// The backends that a name in lower case stands for, if it is the name
    /// of any.
    pub open spec fn named(name: Seq<char>) -> Option<Backends> {
        if name == "vulkan"@ {
            Some(Backends { vulkan: true, ..Backends::none() })
        } else if name == "metal"@ {
            Some(Backends { metal: true, ..Backends::none() })
        } else if name == "dx12"@ {
            Some(Backends { dx12: true, ..Backends::none() })
        } else if name == "dx11"@ {
            Some(Backends { dx11: true, ..Backends::none() })
        } else if name == "gl"@ {
            Some(Backends { gl: true, ..Backends::none() })
        } else if name == "webgpu"@ {
            Some(Backends { browser_webgpu: true, ..Backends::none() })
        } else if name == "primary"@ {
            Some(
                Backends {
                    vulkan: true,
                    metal: true,
                    dx12: true,
                    browser_webgpu: true,
                    ..Backends::none()
                },
            )
        } else {
            None
        }
    }

    /// Every backend.
    pub fn all() -> (backends: Backends)
        ensures
            backends == Backends::every(),
    {
        Backends { vulkan: true, metal: true, dx12: true, dx11: true, gl: true, browser_webgpu: true }
    }

    /// The backends that `name` stands for, whatever the case of its
    /// letters: `vulkan`, `metal`, `dx12`, `dx11`, `gl`, `webgpu` or
    /// `primary`. `None` for any other name.
    pub fn from_name(name: &str) -> (backends: Option<Backends>)
        ensures
            backends == Backends::named(lowered(name@)),
    {
        let lower = lowercase(name);
        Backends::from_lowered(&lower)
    }

    /// The backends that a name in lower case stands for.
    pub fn from_lowered(lower: &String) -> (backends: Option<Backends>)
        ensures
            backends == Backends::named(lower@),
    {
        let none = Backends {
            vulkan: false,
            metal: false,
            dx12: false,
            dx11: false,
            gl: false,
            browser_webgpu: false,
        };
        if *lower == String::from_str("vulkan") {
            Some(Backends { vulkan: true, ..none })
        } else if *lower == String::from_str("metal") {
            Some(Backends { metal: true, ..none })
        } else if *lower == String::from_str("dx12") {
            Some(Backends { dx12: true, ..none })
        } else if *lower == String::from_str("dx11") {
            Some(Backends { dx11: true, ..none })
        } else if *lower == String::from_str("gl") {
            Some(Backends { gl: true, ..none })
        } else if *lower == String::from_str("webgpu") {
            Some(Backends { browser_webgpu: true, ..none })
        } else if *lower == String::from_str("primary") {
            Some(
                Backends { vulkan: true, metal: true, dx12: true, browser_webgpu: true, ..none },
            )
        } else {
            None
        }
    }
}

impl Settings {
    /// The settings that nothing has changed.
    pub open spec fn initial() -> Settings {
        Settings {
            present_mode: PresentMode::AutoVsync,
            internal_backend: Backends::every(),
            default_font: Font::Default,
            default_text_size: 20,
            antialiasing: None,
        }
    }

    /// The settings that the environment asks for. `backend` is what the
    /// variable `WGPU_BACKEND` holds, if it is set: the name of the backends
    /// to choose among. Unset, every backend may be chosen.
    ///
    /// The name has to be one that [`Backends::from_name`] knows.
    pub fn from_env(backend: Option<&str>) -> (settings: Settings)
        requires
            backend matches Some(name) ==> Backends::named(lowered(name@)) is Some,
        ensures
            settings == (Settings {
                internal_backend: match backend {
                    Some(name) => Backends::named(lowered(name@))->0,
                    None => Backends::every(),
                },
                ..Settings::initial()
            }),
    {
        let internal_backend = match backend {
            Some(name) => match Backends::from_name(name) {
                Some(backends) => backends,
                None => Backends::all(),
            },
            None => Backends::all(),
        };
        Settings {
            present_mode: PresentMode::AutoVsync,
            internal_backend,
            default_font: Font::Default,
            default_text_size: 20,
            antialiasing: None,
        }
    }

    /// The settings that the environment asks for, or `None` where it names
    /// backends that are not known.
    pub fn try_from_env(backend: Option<&str>) -> (settings: Option<Settings>)
        ensures
            match backend {
                Some(name) => match Backends::named(lowered(name@)) {
                    Some(backends) => settings == Some(
                        Settings { internal_backend: backends, ..Settings::initial() },
                    ),
                    None => settings is None,
                },
                None => settings == Some(Settings::initial()),
            },
    {
        match backend {
            Some(name) => match Backends::from_name(name) {
                Some(_) => Some(Settings::from_env(backend)),
                None => None,
            },
            None => Some(Settings::from_env(backend)),
        }
    }
}

impl Default for Settings {
    fn default() -> (settings: Settings)
        ensures
            settings == Settings::initial(),
    {
        Settings {
            present_mode: PresentMode::AutoVsync,
            internal_backend: Backends::all(),
            default_font: Font::Default,
            default_text_size: 20,
            antialiasing: None,
        }
    }
}

} // verus!
