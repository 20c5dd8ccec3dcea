//! The layered standard atmosphere: temperature, pressure, density and speed
//! of sound as functions of altitude, from a table of layers.

use vstd::prelude::*;
use crate::constants::{
    air_gas_constant, air_gas_constant_term, air_kappa, air_kappa_term, std_gravity,
    std_gravity_term,
};
use crate::scalar::{
    compares, is_deterministic, lemma_value_unique, tests_equal, Scalar, Term, val, whole,
};

verus! {

/// One layer of the atmosphere: the values at its base and the temperature
/// gradient that holds from there upwards.
#[derive(Clone, Copy, Debug, PartialEq)]
pub struct Layer<T> {
    pub base_altitude: T,
    pub base_pressure: T,
    pub base_temperature: T,
    pub base_temp_gradient: T,
}

impl<T: Scalar> Layer<T> {
    /// The temperature at `alt`, linear in the height above the base:
    /// `T_B + L_B * (alt - H_B)`.
    pub open spec fn temperature_term(self, alt: T) -> Term<T> {
        val(self.base_temperature).plus(
            val(self.base_temp_gradient).times(val(alt).minus(val(self.base_altitude))),
        )
    }

    /// The hydrostatic constant `g_0 M_0 / R*`: standard gravity over the
    /// specific gas constant of air.
    pub open spec fn hydrostatic_term() -> Term<T> {
        std_gravity_term().over(air_gas_constant_term())
    }

    /// The pressure at `alt` in a layer with a temperature gradient:
    /// `P_B * (T_B / T) ^ ((g_0 M_0 / R*) / L_B)`.
    pub open spec fn gradient_pressure_term(self, alt: T) -> Term<T> {
        val(self.base_pressure).times(
            val(self.base_temperature).over(self.temperature_term(alt)).powf(
                Self::hydrostatic_term().over(val(self.base_temp_gradient)),
            ),
        )
    }

    /// The pressure at `alt` in a layer of constant temperature:
    /// `P_B * exp(-(g_0 M_0 / R*) * (alt - H_B) / T_B)`.
    pub open spec fn isothermal_pressure_term(self, alt: T) -> Term<T> {
        val(self.base_pressure).times(
            Self::hydrostatic_term().negated().times(val(alt).minus(val(self.base_altitude))).over(
                val(self.base_temperature),
            ).exp(),
        )
    }

    /// The pressure at `alt`, by the form that the layer takes: the
    /// exponential one if `isothermal`, else the power law.
    pub open spec fn pressure_term(self, alt: T, isothermal: bool) -> Term<T> {
        if isothermal {
            self.isothermal_pressure_term(alt)
        } else {
            self.gradient_pressure_term(alt)
        }
    }

    /// `pressure` is the pressure at `alt`: the layer is taken as isothermal
    /// exactly when its gradient tests equal to zero, and `pressure` is a value
    /// of the formula for that form.
    pub open spec fn is_pressure(self, alt: T, pressure: T) -> bool {
        exists|zero: T, isothermal: bool|
            {
                &&& whole(0).yields(zero)
                &&& #[trigger] tests_equal(self.base_temp_gradient, zero, isothermal)
                &&& self.pressure_term(alt, isothermal).yields(pressure)
            }
    }

    /// The density for a given pressure and temperature, by the ideal gas
    /// law: `P / (T * R)`.
    pub open spec fn density_term(pressure: T, temperature: T) -> Term<T> {
        val(pressure).over(val(temperature).times(air_gas_constant_term()))
    }

    /// `density` is the density at `alt`: the ideal gas law on a temperature
    /// and a pressure of the layer at `alt`.
    pub open spec fn is_density(self, alt: T, density: T) -> bool {
        exists|temperature: T, pressure: T|
            {
                &&& self.temperature_term(alt).yields(temperature)
                &&& self.is_pressure(alt, pressure)
                &&& #[trigger] Self::density_term(pressure, temperature).yields(density)
            }
    }

    /// The speed of sound at `alt`: `sqrt(kappa * R * T)`.
    pub open spec fn speed_of_sound_term(self, alt: T) -> Term<T> {
        air_kappa_term().times(air_gas_constant_term()).times(self.temperature_term(alt)).sqrt()
    }

    /// The layer has one pressure at an altitude, where the operations of `T`
    /// are functions of their operands.
    pub proof fn lemma_pressure_unique(self, alt: T, p1: T, p2: T)
        requires
            is_deterministic::<T>(),
            self.is_pressure(alt, p1),
            self.is_pressure(alt, p2),
        ensures
            p1 == p2,
    {
        let (zero1, isothermal1) = choose|zero: T, isothermal: bool|
            {
                &&& whole(0).yields(zero)
                &&& #[trigger] tests_equal(self.base_temp_gradient, zero, isothermal)
                &&& self.pressure_term(alt, isothermal).yields(p1)
            };
        let (zero2, isothermal2) = choose|zero: T, isothermal: bool|
            {
                &&& whole(0).yields(zero)
                &&& #[trigger] tests_equal(self.base_temp_gradient, zero, isothermal)
                &&& self.pressure_term(alt, isothermal).yields(p2)
            };
        lemma_value_unique(whole(0), zero1, zero2);
        assert(isothermal1 == isothermal2);
        lemma_value_unique(self.pressure_term(alt, isothermal1), p1, p2);
    }

    /// The layer has one density at an altitude, where the operations of `T`
    /// are functions of their operands.
    pub proof fn lemma_density_unique(self, alt: T, d1: T, d2: T)
        requires
            is_deterministic::<T>(),
            self.is_density(alt, d1),
            self.is_density(alt, d2),
        ensures
            d1 == d2,
    {
        let (t1, p1) = choose|temperature: T, pressure: T|
            {
                &&& self.temperature_term(alt).yields(temperature)
                &&& self.is_pressure(alt, pressure)
                &&& #[trigger] Self::density_term(pressure, temperature).yields(d1)
            };
        let (t2, p2) = choose|temperature: T, pressure: T|
            {
                &&& self.temperature_term(alt).yields(temperature)
                &&& self.is_pressure(alt, pressure)
                &&& #[trigger] Self::density_term(pressure, temperature).yields(d2)
            };
        lemma_value_unique(self.temperature_term(alt), t1, t2);
        self.lemma_pressure_unique(alt, p1, p2);
        lemma_value_unique(Self::density_term(p1, t1), d1, d2);
    }

    /// The temperature at the altitude `alt`.
    pub fn temperature(&self, alt: T) -> (temperature: T)
        ensures
            self.temperature_term(alt).yields(temperature),
    {
        let temperature = self.base_temperature.plus(
            self.base_temp_gradient.times(alt.minus(self.base_altitude)),
        );
        proof {
            reveal_with_fuel(Term::yields, 4);
        }
        temperature
    }

    /// The pressure at the altitude `alt`.
    pub fn pressure(&self, alt: T) -> (pressure: T)
        ensures
            self.is_pressure(alt, pressure),
    {
        let hydrostatic = std_gravity::<T>().over(air_gas_constant());
        let zero = T::from_int(0);
        let isothermal = self.base_temp_gradient.equals(zero);
        proof {
            reveal_with_fuel(Term::yields, 3);
            assert(Self::hydrostatic_term().yields(hydrostatic));
            assert(whole::<T>(0).yields(zero));
        }
        if !isothermal {
            let temperature = self.temperature(alt);
            let ratio = self.base_temperature.over(temperature);
            let exponent = hydrostatic.over(self.base_temp_gradient);
            let pressure = self.base_pressure.times(ratio.powf(exponent));
            proof {
                assert(val(self.base_temperature).over(self.temperature_term(alt)).yields(ratio));
                assert(Self::hydrostatic_term().over(val(self.base_temp_gradient)).yields(
                    exponent,
                ));
                assert(self.gradient_pressure_term(alt).yields(pressure));
                assert(tests_equal(self.base_temp_gradient, zero, isothermal));
                assert(self.pressure_term(alt, isothermal).yields(pressure));
            }
            pressure
        } else {
            let height = alt.minus(self.base_altitude);
            let falling = hydrostatic.negated();
            let product = falling.times(height);
            let exponent = product.over(self.base_temperature);
            let pressure = self.base_pressure.times(exponent.exp());
            proof {
                assert(Self::hydrostatic_term().negated().yields(falling));
                assert(Self::hydrostatic_term().negated().times(
                    val(alt).minus(val(self.base_altitude)),
                ).yields(product));
                assert(Self::hydrostatic_term().negated().times(
                    val(alt).minus(val(self.base_altitude)),
                ).over(val(self.base_temperature)).yields(exponent));
                assert(self.isothermal_pressure_term(alt).yields(pressure));
                assert(tests_equal(self.base_temp_gradient, zero, isothermal));
                assert(self.pressure_term(alt, isothermal).yields(pressure));
            }
            pressure
        }
    }

    /// The density at the altitude `alt`.
    pub fn density(&self, alt: T) -> (density: T)
        ensures
            self.is_density(alt, density),
    {
        let temperature = self.temperature(alt);
        let pressure = self.pressure(alt);
        let density = pressure.over(temperature.times(air_gas_constant()));
        proof {
            reveal_with_fuel(Term::yields, 3);
            assert(Self::density_term(pressure, temperature).yields(density));
        }
        density
    }

    /// The speed of sound at the altitude `alt`.
    pub fn speed_of_sound(&self, alt: T) -> (speed: T)
        ensures
            self.speed_of_sound_term(alt).yields(speed),
    {
        let temperature = self.temperature(alt);
        let square = air_kappa::<T>().times(air_gas_constant()).times(temperature);
        let speed = square.sqrt();
        proof {
            reveal_with_fuel(Term::yields, 3);
            assert(air_kappa_term::<T>().times(air_gas_constant_term()).times(
                self.temperature_term(alt),
            ).yields(square));
        }
        speed
    }
}

/// Every layer's base is at or above the base of the layer before it.
pub open spec fn is_ascending<T: Scalar>(rows: Seq<Layer<T>>) -> bool {
    forall|i: int|
        0 < i < rows.len() ==> compares(
            rows[i - 1].base_altitude,
            (#[trigger] rows[i]).base_altitude,
            true,
        )
}

/// Why a sequence of layers is no table.
#[derive(Debug, PartialEq, Eq, Structural)]
pub enum TableError {
    /// There is no layer.
    Empty,
    /// The layer `row` starts below the one before it.
    NotAscending { row: usize },
}

/// The layers of an atmosphere from the lowest upwards: there is at least
/// one, and their base altitudes ascend.
#[derive(Debug)]
pub struct AtmosphereTable<T: Scalar> {
    rows: Vec<Layer<T>>,
}

impl<T: Scalar> View for AtmosphereTable<T> {
    type V = Seq<Layer<T>>;

    closed spec fn view(&self) -> Seq<Layer<T>> {
        self.rows@
    }
}

impl<T: Scalar> AtmosphereTable<T> {
    #[verifier::type_invariant]
    spec fn well_formed(self) -> bool {
        self.rows@.len() > 0 && is_ascending(self.rows@)
    }

    /// The table of the layers `rows`, if there is one and their base
    /// altitudes ascend; else the first fault found, from the bottom upwards.
    pub fn new(rows: Vec<Layer<T>>) -> (table: Result<Self, TableError>)
        ensures
            match table {
                Ok(table) => table@ == rows@ && rows@.len() > 0 && is_ascending(rows@),
                Err(TableError::Empty) => rows@.len() == 0,
                Err(TableError::NotAscending { row }) => {
                    &&& 0 < row < rows@.len()
                    &&& is_ascending(rows@.take(row as int))
                    &&& compares(
                        rows@[row - 1].base_altitude,
                        rows@[row as int].base_altitude,
                        false,
                    )
                },
            },
    {
        if rows.len() == 0 {
            return Err(TableError::Empty);
        }
        let mut row: usize = 1;
        while row < rows.len()
            invariant
                0 < row <= rows.len(),
                is_ascending(rows@.take(row as int)),
            decreases rows.len() - row,
        {
            if !rows[row - 1].base_altitude.less_eq(rows[row].base_altitude) {
                return Err(TableError::NotAscending { row });
            }
            proof {
                let longer = rows@.take(row + 1);
                assert forall|i: int| 0 < i < longer.len() implies compares(
                    longer[i - 1].base_altitude,
                    (#[trigger] longer[i]).base_altitude,
                    true,
                ) by {
                    if i < row {
                        assert(rows@.take(row as int)[i] == longer[i]);
                    }
                }
            }
            row += 1;
        }
        proof {
            assert(rows@.take(row as int) =~= rows@);
        }
        Ok(AtmosphereTable { rows })
    }

    /// The layer `i` is the one that holds at `alt`: the last whose base
    /// altitude compares as at or below `alt`, and the lowest if there is
    /// none.
    pub open spec fn selects(self, alt: T, i: int) -> bool {
        &&& 0 <= i < self@.len()
        &&& i > 0 ==> compares(self@[i].base_altitude, alt, true)
        &&& forall|j: int|
            i < j < self@.len() ==> compares((#[trigger] self@[j]).base_altitude, alt, false)
    }

    /// At most one layer holds at an altitude, where no comparison with the
    /// altitude can come out both ways.
    pub proof fn lemma_selection_unique(self, alt: T, i: int, j: int)
        requires
            self.selects(alt, i),
            self.selects(alt, j),
            forall|k: int|
                0 <= k < self@.len() ==> !(compares((#[trigger] self@[k]).base_altitude, alt, true)
                    && compares(self@[k].base_altitude, alt, false)),
        ensures
            i == j,
    {
        if i < j {
            assert(compares(self@[j].base_altitude, alt, false));
        } else if j < i {
            assert(compares(self@[i].base_altitude, alt, false));
        }
    }

    /// In an ascending table the layer that holds at `alt` has the greatest
    /// base altitude at or below `alt`: every layer up to it is at or below
    /// `alt` too, where comparing is transitive. (Every layer after it is
    /// above `alt` by the choice of the layer.)
    pub proof fn lemma_selected_is_greatest(self, alt: T, i: int, j: int)
        requires
            self.selects(alt, i),
            is_ascending(self@),
            0 <= j <= i,
            i > 0,
            forall|a: T, b: T, c: T|
                #[trigger] compares(a, b, true) && #[trigger] compares(b, c, true) ==> compares(
                    a,
                    c,
                    true,
                ),
        ensures
            compares(self@[j].base_altitude, alt, true),
        decreases i - j,
    {
        if j < i {
            self.lemma_selected_is_greatest(alt, i, j + 1);
            assert(compares(self@[j].base_altitude, self@[j + 1].base_altitude, true));
        }
    }

    /// `layer` is the layer that holds at `alt`.
    pub open spec fn selects_layer(self, alt: T, layer: Layer<T>) -> bool {
        exists|i: int| #[trigger] self.selects(alt, i) && self@[i] == layer
    }

    /// One layer holds at an altitude, where the operations of `T` are
    /// functions of their operands.
    pub proof fn lemma_layer_unique(self, alt: T, layer1: Layer<T>, layer2: Layer<T>)
        requires
            is_deterministic::<T>(),
            self.selects_layer(alt, layer1),
            self.selects_layer(alt, layer2),
        ensures
            layer1 == layer2,
    {
        let i = choose|i: int| #[trigger] self.selects(alt, i) && self@[i] == layer1;
        let j = choose|j: int| #[trigger] self.selects(alt, j) && self@[j] == layer2;
        self.lemma_selection_unique(alt, i, j);
    }

    /// The number of layers.
    pub fn len(&self) -> (n: usize)
        ensures
            n == self@.len(),
            n > 0,
    {
        proof {
            use_type_invariant(self);
        }
        self.rows.len()
    }

    /// The index of the layer that holds at the altitude `alt`. Below the
    /// lowest layer that is the lowest layer, above the highest the highest.
    pub fn row_index(&self, alt: T) -> (i: usize)
        ensures
            self.selects(alt, i as int),
    {
        proof {
            use_type_invariant(self);
        }
        let mut i: usize = self.rows.len() - 1;
        while i > 0
            invariant
                i < self.rows@.len(),
                forall|j: int|
                    i < j < self.rows@.len() ==> compares(
                        (#[trigger] self.rows@[j]).base_altitude,
                        alt,
                        false,
                    ),
            decreases i,
        {
            if self.rows[i].base_altitude.less_eq(alt) {
                return i;
            }
            i -= 1;
        }
        i
    }

    /// The layer that holds at the altitude `alt`.
    pub fn row(&self, alt: T) -> (layer: &Layer<T>)
        ensures
            self.selects_layer(alt, *layer),
    {
        let i = self.row_index(alt);
        &self.rows[i]
    }
}

/// The models of the atmosphere.
#[derive(Debug)]
pub enum Atmosphere<T: Scalar> {
    /// The hydrostatic model of the 1962 standard atmosphere over a table of
    /// layers: in each layer the temperature is linear in altitude.
    StandardAtmosphere1962(AtmosphereTable<T>),
}

impl<T: Scalar> Atmosphere<T> {
    /// The table of layers of the model.
    pub open spec fn table(self) -> AtmosphereTable<T> {
        match self {
            Atmosphere::StandardAtmosphere1962(table) => table,
        }
    }

    /// `temperature` is the temperature at `alt`: that of the layer that
    /// holds there.
    pub open spec fn is_temperature(self, alt: T, temperature: T) -> bool {
        exists|layer: Layer<T>|
            #[trigger] self.table().selects_layer(alt, layer) && layer.temperature_term(
                alt,
            ).yields(temperature)
    }

    /// `pressure` is the pressure at `alt`: that of the layer that holds
    /// there, by the form that the layer takes.
    pub open spec fn is_pressure(self, alt: T, pressure: T) -> bool {
        exists|layer: Layer<T>|
            #[trigger] self.table().selects_layer(alt, layer) && layer.is_pressure(alt, pressure)
    }

    /// `density` is the density at `alt`: that of the layer that holds there.
    pub open spec fn is_density(self, alt: T, density: T) -> bool {
        exists|layer: Layer<T>|
            #[trigger] self.table().selects_layer(alt, layer) && layer.is_density(alt, density)
    }

    /// `speed` is the speed of sound at `alt`: that of the layer that holds
    /// there.
    pub open spec fn is_speed_of_sound(self, alt: T, speed: T) -> bool {
        exists|layer: Layer<T>|
            #[trigger] self.table().selects_layer(alt, layer) && layer.speed_of_sound_term(
                alt,
            ).yields(speed)
    }

    /// The atmosphere has one temperature, pressure, density and speed of
    /// sound at an altitude, where the operations of `T` are functions of
    /// their operands.
    pub proof fn lemma_values_unique(self, alt: T, a: T, b: T)
        requires
            is_deterministic::<T>(),
        ensures
            self.is_temperature(alt, a) && self.is_temperature(alt, b) ==> a == b,
            self.is_pressure(alt, a) && self.is_pressure(alt, b) ==> a == b,
            self.is_density(alt, a) && self.is_density(alt, b) ==> a == b,
            self.is_speed_of_sound(alt, a) && self.is_speed_of_sound(alt, b) ==> a == b,
    {
        let table = self.table();
        if self.is_temperature(alt, a) && self.is_temperature(alt, b) {
            let l1 = choose|layer: Layer<T>| #[trigger]
                table.selects_layer(alt, layer) && layer.temperature_term(alt).yields(a);
            let l2 = choose|layer: Layer<T>| #[trigger]
                table.selects_layer(alt, layer) && layer.temperature_term(alt).yields(b);
            table.lemma_layer_unique(alt, l1, l2);
            lemma_value_unique(l1.temperature_term(alt), a, b);
        }
        if self.is_pressure(alt, a) && self.is_pressure(alt, b) {
            let l1 = choose|layer: Layer<T>| #[trigger]
                table.selects_layer(alt, layer) && layer.is_pressure(alt, a);
            let l2 = choose|layer: Layer<T>| #[trigger]
                table.selects_layer(alt, layer) && layer.is_pressure(alt, b);
            table.lemma_layer_unique(alt, l1, l2);
            l1.lemma_pressure_unique(alt, a, b);
        }
        if self.is_density(alt, a) && self.is_density(alt, b) {
            let l1 = choose|layer: Layer<T>| #[trigger]
                table.selects_layer(alt, layer) && layer.is_density(alt, a);
            let l2 = choose|layer: Layer<T>| #[trigger]
                table.selects_layer(alt, layer) && layer.is_density(alt, b);
            table.lemma_layer_unique(alt, l1, l2);
            l1.lemma_density_unique(alt, a, b);
        }
        if self.is_speed_of_sound(alt, a) && self.is_speed_of_sound(alt, b) {
            let l1 = choose|layer: Layer<T>| #[trigger]
                table.selects_layer(alt, layer) && layer.speed_of_sound_term(alt).yields(a);
            let l2 = choose|layer: Layer<T>| #[trigger]
                table.selects_layer(alt, layer) && layer.speed_of_sound_term(alt).yields(b);
            table.lemma_layer_unique(alt, l1, l2);
            lemma_value_unique(l1.speed_of_sound_term(alt), a, b);
        }
    }

    /// The temperature at the altitude `alt`.
    pub fn temperature(&self, alt: T) -> (temperature: T)
        ensures
            self.is_temperature(alt, temperature),
    {
        match self {
            Self::StandardAtmosphere1962(table) => {
                let layer = table.row(alt);
                let temperature = layer.temperature(alt);
                assert(self.table().selects_layer(alt, *layer));
                temperature
            },
        }
    }

    /// The pressure at the altitude `alt`.
    pub fn pressure(&self, alt: T) -> (pressure: T)
        ensures
            self.is_pressure(alt, pressure),
    {
        match self {
            Self::StandardAtmosphere1962(table) => {
                let layer = table.row(alt);
                let pressure = layer.pressure(alt);
                assert(self.table().selects_layer(alt, *layer));
                pressure
            },
        }
    }

    /// The density at the altitude `alt`.
    pub fn density(&self, alt: T) -> (density: T)
        ensures
            self.is_density(alt, density),
    {
        match self {
            Self::StandardAtmosphere1962(table) => {
                let layer = table.row(alt);
                let density = layer.density(alt);
                assert(self.table().selects_layer(alt, *layer));
                density
            },
        }
    }

    /// The speed of sound at the altitude `alt`.
    pub fn speed_of_sound(&self, alt: T) -> (speed: T)
        ensures
            self.is_speed_of_sound(alt, speed),
    {
        match self {
            Self::StandardAtmosphere1962(table) => {
                let layer = table.row(alt);
                let speed = layer.speed_of_sound(alt);
                assert(self.table().selects_layer(alt, *layer));
                speed
            },
        }
    }
}

} // verus!
