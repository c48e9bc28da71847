//! Which device a product id stands for.

use vstd::prelude::*;

verus! {

/// The kind of a device, with its product id and, where it is known, its
/// name.
#[derive(Debug, Clone, Copy, PartialEq, Eq, PartialOrd, Ord, Hash)]
pub enum DeviceType {
    Laptop(u16, &'static str),
    Keyboard(u16, &'static str),
    Mouse(u16, &'static str),
    Unknown(u16),
}

/// Name of the keyboard with product id `id`.
pub open spec fn keyboard_name(id: u16) -> Option<&'static str> {
    if id == 0x0235 {
        Some("Blackwidow Lite (2018)")
    } else {
        None
    }
}

/// Name of the laptop with product id `id`.
pub open spec fn laptop_name(id: u16) -> Option<&'static str> {
    if id == 0x0224 {
        Some("Razer blade 15 2016")
    } else if id == 0x0233 {
        Some("Razer Blade 15 2018 (Adv)")
    } else if id == 0x023A {
        Some("Razer blade 15 2019 (Adv)")
    } else if id == 0x023B {
        Some("Razer blade 15 2018 (Base)")
    } else if id == 0x0240 {
        Some("Razer blade 15 2018 (Mercury edition)")
    } else if id == 0x0245 {
        Some("Razer blade 15 mid 2019 (Mercury edition)")
    } else if id == 0x024B {
        Some("Razer blade 15 late 2019 (Adv)")
    } else if id == 0x024D {
        Some("Razer blade 15 2019 (Studio edition)")
    } else if id == 0x0253 {
        Some("Razer blade 15 2020 (Adv)")
    } else if id == 0x0255 {
        Some("Razer blade 15 2020 (Base)")
    } else if id == 0x022D {
        Some("Razer blade Stealth 2017 (Mid)")
    } else if id == 0x0232 {
        Some("Razer blade Stealth 2017 (End)")
    } else if id == 0x0239 {
        Some("Razer blade Stealth 2019")
    } else if id == 0x024A {
        Some("Razer blade Stealth 2019 (GTX)")
    } else if id == 0x0252 {
        Some("Razer blade Stealth 2020")
    } else if id == 0x0116 {
        Some("Razer blade Pro 2015")
    } else if id == 0x0210 {
        Some("Razer blade Pro 2016")
    } else if id == 0x0225 {
        Some("Razer blade Pro 2017")
    } else if id == 0x022F {
        Some("Razer blade Pro 2018 (FHD)")
    } else if id == 0x0234 {
        Some("Razer blade Pro 2019")
    } else if id == 0x024C {
        Some("Razer blade Pro late 2019")
    } else if id == 0x0256 {
        Some("Razer blade Pro 2020 (FHD)")
    } else if id == 0x020F {
        Some("Razer blade QHD")
    } else {
        None
    }
}

/// Name of the mouse with product id `id`: no mouse is known.
pub open spec fn mouse_name(id: u16) -> Option<&'static str> {
    None
}

/// The device that product id `id` stands for: a keyboard if the id is a
/// keyboard's, else a laptop if it is a laptop's, else a mouse if it is a
/// mouse's, else unknown.
pub open spec fn classify(id: u16) -> DeviceType {
    match keyboard_name(id) {
        Some(name) => DeviceType::Keyboard(id, name),
        None => match laptop_name(id) {
            Some(name) => DeviceType::Laptop(id, name),
            None => match mouse_name(id) {
                Some(name) => DeviceType::Mouse(id, name),
                None => DeviceType::Unknown(id),
            },
        },
    }
}

fn find_keyboard(id: u16) -> (name: Option<&'static str>)
    ensures
        name == keyboard_name(id),
{
    match id {
        0x0235 => Some("Blackwidow Lite (2018)"),
        _ => None,
    }
}

fn find_laptop(id: u16) -> (name: Option<&'static str>)
    ensures
        name == laptop_name(id),
{
    match id {
        // 15"
        0x0224 => Some("Razer blade 15 2016"),
        0x0233 => Some("Razer Blade 15 2018 (Adv)"),
        0x023A => Some("Razer blade 15 2019 (Adv)"),
        0x023B => Some("Razer blade 15 2018 (Base)"),
        0x0240 => Some("Razer blade 15 2018 (Mercury edition)"),
        0x0245 => Some("Razer blade 15 mid 2019 (Mercury edition)"),
        0x024B => Some("Razer blade 15 late 2019 (Adv)"),
        0x024D => Some("Razer blade 15 2019 (Studio edition)"),
        0x0253 => Some("Razer blade 15 2020 (Adv)"),
        0x0255 => Some("Razer blade 15 2020 (Base)"),
        // Stealth
        0x022D => Some("Razer blade Stealth 2017 (Mid)"),
        0x0232 => Some("Razer blade Stealth 2017 (End)"),
        0x0239 => Some("Razer blade Stealth 2019"),
        0x024A => Some("Razer blade Stealth 2019 (GTX)"),
        0x0252 => Some("Razer blade Stealth 2020"),
        // Pro 17"
        0x0116 => Some("Razer blade Pro 2015"),
        0x0210 => Some("Razer blade Pro 2016"),
        0x0225 => Some("Razer blade Pro 2017"),
        0x022F => Some("Razer blade Pro 2018 (FHD)"),
        0x0234 => Some("Razer blade Pro 2019"),
        0x024C => Some("Razer blade Pro late 2019"),
        0x0256 => Some("Razer blade Pro 2020 (FHD)"),
        // Other
        0x020F => Some("Razer blade QHD"),
        _ => None,
    }
}

fn find_mouse(id: u16) -> (name: Option<&'static str>)
    ensures
        name == mouse_name(id),
{
    None
}

impl DeviceType {
    /// The product id.
    pub open spec fn spec_id(self) -> u16 {
        match self {
            DeviceType::Laptop(id, _) => id,
            DeviceType::Keyboard(id, _) => id,
            DeviceType::Mouse(id, _) => id,
            DeviceType::Unknown(id) => id,
        }
    }

    /// The name, `"UNKNOWN"` for an unknown device.
    pub open spec fn spec_name(self) -> &'static str {
        match self {
            DeviceType::Laptop(_, s) => s,
            DeviceType::Keyboard(_, s) => s,
            DeviceType::Mouse(_, s) => s,
            DeviceType::Unknown(_) => "UNKNOWN",
        }
    }

    /// The device that product id `id` stands for.
    pub fn from_id(id: u16) -> (device: Self)
        ensures
            device == classify(id),
            device.spec_id() == id,
    {
        if let Some(name) = find_keyboard(id) {
            return DeviceType::Keyboard(id, name);
        }
        if let Some(name) = find_laptop(id) {
            return DeviceType::Laptop(id, name);
        }
        if let Some(name) = find_mouse(id) {
            return DeviceType::Mouse(id, name);
        }
        DeviceType::Unknown(id)
    }

    pub fn is_laptop(&self) -> (b: bool)
        ensures
            b == (*self is Laptop),
    {
        match self {
            DeviceType::Laptop(_, _) => true,
            _ => false,
        }
    }

    pub fn is_keyboard(&self) -> (b: bool)
        ensures
            b == (*self is Keyboard),
    {
        match self {
            DeviceType::Keyboard(_, _) => true,
            _ => false,
        }
    }

    pub fn is_mouse(&self) -> (b: bool)
        ensures
            b == (*self is Mouse),
    {
        match self {
            DeviceType::Mouse(_, _) => true,
            _ => false,
        }
    }

    pub fn get_name(&self) -> (name: &'static str)
        ensures
            name == self.spec_name(),
    {
        match self {
            DeviceType::Laptop(_, s) => s,
            DeviceType::Keyboard(_, s) => s,
            DeviceType::Mouse(_, s) => s,
            DeviceType::Unknown(_) => "UNKNOWN",
        }
    }

    /// The product id.
    pub fn id(&self) -> (id: u16)
        ensures
            id == self.spec_id(),
    {
        match self {
            DeviceType::Laptop(id, _) => *id,
            DeviceType::Keyboard(id, _) => *id,
            DeviceType::Mouse(id, _) => *id,
            DeviceType::Unknown(id) => *id,
        }
    }
}

} // verus!
