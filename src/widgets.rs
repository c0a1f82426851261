pub mod systems_widget;
