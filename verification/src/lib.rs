//! The logic of a dynamic function row daemon: layers of buttons, how they are
//! laid out, drawn and touched, and what they show.

pub mod button;
pub mod clock;
pub mod command;
pub mod config;
pub mod construct;
pub mod content;
pub mod crash;
pub mod daemon;
pub mod draw;
pub mod image;
pub mod input;
pub mod json;
pub mod keys;
pub mod layer;
pub mod load;
pub mod logging;
pub mod notification_manager;
pub mod number;
pub mod render;
pub mod simulator;
pub mod slider;
pub mod sysinfo_manager;
pub mod t2_usb;
pub mod text;
pub mod warnings;
pub mod weather;

pub use crate::button::{
    abbreviate_profile, battery_color, battery_warning, find_battery_device, get_battery_state,
    normalize_time_option, notification_button_alias, now_playing_icon_color, slider_icon_color,
    usage_color, weather_icon_color, workspace_icon_color, BatteryIconMode, BatteryImages,
    BatteryState, Button, ButtonImage, NotificationButton, WeatherIcons,
};
pub use crate::config::ButtonConfig;
pub use crate::content::ButtonContent;
pub use crate::layer::{
    begin_layer_switch, layer_index, two_mut, FunctionLayer, LayoutItem, LayoutItemKind, PulloutAnim,
    BUTTON_SPACING_PX, PULLOUT_ANIM,
};
pub use crate::notification_manager::NotificationManager;
pub use crate::slider::SliderKind;
