//! Conduit types for drainage networks.
//!
//! Conduits represent flow paths between nodes: closed pipes, surface
//! gutters along roadways, and open channels.
//!
//! Every dimensional field carries its value in thousandths of the
//! engine unit; dimensionless ratios (slopes, Manning's n, loss
//! coefficients) are in thousandths as well, so a slope of `20`
//! stands for 0.020.

use vstd::prelude::*;

verus! {

/// A conduit in the drainage network.
#[derive(Debug, Clone, PartialEq)]
pub struct Conduit {
    /// Unique conduit identifier.
    pub id: String,
    /// Conduit kind.
    pub conduit_type: ConduitType,
    /// Descriptive name (optional).
    pub name: Option<String>,
    /// Upstream node ID.
    pub from_node: String,
    /// Downstream node ID.
    pub to_node: String,
    /// Conduit length, in thousandths.
    pub length: i64,
    /// Upstream invert elevation, in thousandths (optional).
    pub upstream_invert: Option<i64>,
    /// Downstream invert elevation, in thousandths (optional).
    pub downstream_invert: Option<i64>,
    /// Conduit slope, in thousandths (optional).
    pub slope: Option<i64>,
    /// Pipe-specific properties.
    pub pipe: Option<PipeProperties>,
    /// Gutter-specific properties.
    pub gutter: Option<GutterProperties>,
    /// Open-channel-specific properties.
    pub channel: Option<ChannelProperties>,
}

/// Conduit kind classification.
#[derive(Debug, Clone, Copy, PartialEq, Eq, Structural)]
pub enum ConduitType {
    /// Closed pipe conduit.
    Pipe,
    /// Surface gutter flow.
    Gutter,
    /// Open channel.
    Channel,
}

/// Pipe properties.
#[derive(Debug, Clone, PartialEq)]
pub struct PipeProperties {
    /// Pipe cross-sectional shape.
    pub shape: PipeShape,
    /// Pipe diameter for circular pipes, in thousandths of an inch or
    /// millimetre (optional).
    pub diameter: Option<i64>,
    /// Width for rectangular or elliptical pipes, in thousandths (optional).
    pub width: Option<i64>,
    /// Height for rectangular or elliptical pipes, in thousandths (optional).
    pub height: Option<i64>,
    /// Pipe material (optional).
    pub material: Option<PipeMaterial>,
    /// Manning's roughness coefficient n, in thousandths.
    pub manning_n: i64,
    /// Entrance loss coefficient, in thousandths (optional).
    pub entrance_loss: Option<i64>,
    /// Exit loss coefficient, in thousandths (optional).
    pub exit_loss: Option<i64>,
    /// Additional loss coefficient for bends, in thousandths (optional).
    pub bend_loss: Option<i64>,
}

/// Pipe cross-sectional shape.
#[derive(Debug, Clone, Copy, PartialEq, Eq, Structural)]
pub enum PipeShape {
    /// Circular pipe (most common).
    Circular,
    /// Rectangular box culvert.
    Rectangular,
    /// Elliptical pipe.
    Elliptical,
    /// Arch pipe.
    Arch,
}

/// Pipe material kinds, each with a typical Manning's n value.
#[derive(Debug, Clone, Copy, PartialEq, Eq, Structural)]
pub enum PipeMaterial {
    /// Reinforced concrete pipe (n of about 0.013).
    RCP,
    /// Corrugated metal pipe (n of about 0.024).
    CMP,
    /// Polyvinyl chloride (n of about 0.011).
    PVC,
    /// High-density polyethylene (n of about 0.011).
    HDPE,
    /// Concrete pipe (n of about 0.013).
    Concrete,
    /// Steel pipe (n of about 0.012).
    Steel,
    /// Ductile iron pipe (n of about 0.013).
    DuctileIron,
}

impl PipeMaterial {
    /// Typical Manning's n for this material, in thousandths.
    pub fn typical_manning_n(&self) -> (r: i64)
        ensures
            r == match *self {
                PipeMaterial::RCP => 13int,
                PipeMaterial::CMP => 24int,
                PipeMaterial::PVC => 11int,
                PipeMaterial::HDPE => 11int,
                PipeMaterial::Concrete => 13int,
                PipeMaterial::Steel => 12int,
                PipeMaterial::DuctileIron => 13int,
            },
    {
        match self {
            PipeMaterial::RCP => 13,
            PipeMaterial::CMP => 24,
            PipeMaterial::PVC => 11,
            PipeMaterial::HDPE => 11,
            PipeMaterial::Concrete => 13,
            PipeMaterial::Steel => 12,
            PipeMaterial::DuctileIron => 13,
        }
    }
}

/// Gutter properties.
#[derive(Debug, Clone, PartialEq)]
pub struct GutterProperties {
    /// Cross slope perpendicular to the flow, in thousandths.
    pub cross_slope: i64,
    /// Longitudinal slope in the direction of flow, in thousandths.
    pub longitudinal_slope: i64,
    /// Gutter width, in thousandths (optional).
    pub width: Option<i64>,
    /// Manning's roughness coefficient n, in thousandths.
    pub manning_n: i64,
}

/// Open-channel properties.
#[derive(Debug, Clone, PartialEq)]
pub struct ChannelProperties {
    /// Channel cross-sectional shape.
    pub shape: ChannelShape,
    /// Bottom width for trapezoidal or rectangular channels, in
    /// thousandths (optional).
    pub bottom_width: Option<i64>,
    /// Side slope (horizontal to vertical), in thousandths (optional).
    pub side_slope: Option<i64>,
    /// Manning's roughness coefficient n, in thousandths.
    pub manning_n: i64,
}

/// Channel cross-sectional shape.
#[derive(Debug, Clone, Copy, PartialEq, Eq, Structural)]
pub enum ChannelShape {
    /// Trapezoidal channel (most common).
    Trapezoidal,
    /// Rectangular channel.
    Rectangular,
    /// Triangular channel.
    Triangular,
    /// Natural or irregular channel.
    Natural,
}

/// The slope derived from invert elevations, in thousandths:
/// `(upstream - downstream) * 1000 / length`, truncated toward zero.
pub open spec fn slope_from_inverts(up: int, down: int, length: int) -> int {
    if up >= down {
        (up - down) * 1000 / length
    } else {
        -((down - up) * 1000 / length)
    }
}

impl Conduit {
    /// Create a new pipe conduit.
    pub fn new_pipe(
        id: String,
        from_node: String,
        to_node: String,
        length: i64,
        properties: PipeProperties,
    ) -> (r: Conduit)
        ensures
            r.id == id,
            r.conduit_type == ConduitType::Pipe,
            r.name is None,
            r.from_node == from_node,
            r.to_node == to_node,
            r.length == length,
            r.upstream_invert is None,
            r.downstream_invert is None,
            r.slope is None,
            r.pipe == Some(properties),
            r.gutter is None,
            r.channel is None,
    {
        Conduit {
            id,
            conduit_type: ConduitType::Pipe,
            name: None,
            from_node,
            to_node,
            length,
            upstream_invert: None,
            downstream_invert: None,
            slope: None,
            pipe: Some(properties),
            gutter: None,
            channel: None,
        }
    }

    /// Create a new gutter conduit.  The conduit slope is taken from the
    /// gutter's longitudinal slope.
    pub fn new_gutter(
        id: String,
        from_node: String,
        to_node: String,
        length: i64,
        properties: GutterProperties,
    ) -> (r: Conduit)
        ensures
            r.id == id,
            r.conduit_type == ConduitType::Gutter,
            r.from_node == from_node,
            r.to_node == to_node,
            r.length == length,
            r.slope == Some(properties.longitudinal_slope),
            r.pipe is None,
            r.gutter == Some(properties),
            r.channel is None,
    {
        let slope = properties.longitudinal_slope;
        Conduit {
            id,
            conduit_type: ConduitType::Gutter,
            name: None,
            from_node,
            to_node,
            length,
            upstream_invert: None,
            downstream_invert: None,
            slope: Some(slope),
            pipe: None,
            gutter: Some(properties),
            channel: None,
        }
    }

    /// Create a new channel conduit.
    pub fn new_channel(
        id: String,
        from_node: String,
        to_node: String,
        length: i64,
        properties: ChannelProperties,
    ) -> (r: Conduit)
        ensures
            r.id == id,
            r.conduit_type == ConduitType::Channel,
            r.from_node == from_node,
            r.to_node == to_node,
            r.length == length,
            r.slope is None,
            r.pipe is None,
            r.gutter is None,
            r.channel == Some(properties),
    {
        Conduit {
            id,
            conduit_type: ConduitType::Channel,
            name: None,
            from_node,
            to_node,
            length,
            upstream_invert: None,
            downstream_invert: None,
            slope: None,
            pipe: None,
            gutter: None,
            channel: Some(properties),
        }
    }

    /// Calculate the slope from the invert elevations, in thousandths.
    /// Returns `None` unless both inverts are given and the length is
    /// positive.
    pub fn calculate_slope(&self) -> (r: Option<i64>)
        requires
            self.upstream_invert is Some && self.downstream_invert is Some ==> {
                let up = self.upstream_invert->0 as int;
                let down = self.downstream_invert->0 as int;
                -1000000000000000 <= up - down <= 1000000000000000
            },
        ensures
            r == match (self.upstream_invert, self.downstream_invert) {
                (Some(up), Some(down)) => {
                    if self.length > 0 {
                        Some(slope_from_inverts(up as int, down as int, self.length as int) as i64)
                    } else {
                        None::<i64>
                    }
                },
                _ => None::<i64>,
            },
    {
        match (self.upstream_invert, self.downstream_invert) {
            (Some(up), Some(down)) => {
                if self.length > 0 {
                    if up >= down {
                        let rise: i64 = up - down;
                        Some((rise * 1000) / self.length)
                    } else {
                        let drop: i64 = down - up;
                        Some(-((drop * 1000) / self.length))
                    }
                } else {
                    None
                }
            },
            _ => None,
        }
    }

    /// The effective slope: the explicit slope where one is given, else
    /// the slope calculated from the inverts.
    pub fn effective_slope(&self) -> (r: Option<i64>)
        requires
            self.upstream_invert is Some && self.downstream_invert is Some ==> {
                let up = self.upstream_invert->0 as int;
                let down = self.downstream_invert->0 as int;
                -1000000000000000 <= up - down <= 1000000000000000
            },
        ensures
            self.slope is Some ==> r == self.slope,
            self.slope is None ==> r == match (self.upstream_invert, self.downstream_invert) {
                (Some(up), Some(down)) => {
                    if self.length > 0 {
                        Some(slope_from_inverts(up as int, down as int, self.length as int) as i64)
                    } else {
                        None::<i64>
                    }
                },
                _ => None::<i64>,
            },
    {
        match self.slope {
            Some(s) => Some(s),
            None => self.calculate_slope(),
        }
    }

    /// Check whether this is a pipe.
    pub fn is_pipe(&self) -> (r: bool)
        ensures
            r == (self.conduit_type == ConduitType::Pipe),
    {
        self.conduit_type == ConduitType::Pipe
    }

    /// Check whether this is a gutter.
    pub fn is_gutter(&self) -> (r: bool)
        ensures
            r == (self.conduit_type == ConduitType::Gutter),
    {
        self.conduit_type == ConduitType::Gutter
    }

    /// Check whether this is a channel.
    pub fn is_channel(&self) -> (r: bool)
        ensures
            r == (self.conduit_type == ConduitType::Channel),
    {
        self.conduit_type == ConduitType::Channel
    }
}

} // verus!
